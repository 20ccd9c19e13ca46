//! The bus the drivers talk through, and the register-level model their
//! contracts are stated in.
//!
//! A driver reaches its bus only through a `Device`, which keeps a ghost
//! transcript of the transfers made on the bus: the bytes handed to it, the
//! bytes it put in the buffer, and the result it returned. The bus and the
//! transcript are private to this module, and only four primitive methods of
//! `Device` extend the transcript, each by the one bus call it makes.
//!
//! A driver operation is described as a sequence of `Step`s (write a
//! register, modify some bits of one, check one), and its contract says that
//! the transfers it made are exactly those of its steps, run in order up to
//! the first failure, and that its result is the one those transfers
//! determine.

use vstd::prelude::*;
use crate::error::Error;

verus! {

/// A blocking I2C controller, addressed by 7-bit device address.
///
/// This is the whole of what the drivers need from the bus: a plain write, a
/// plain read, and a write followed by a read in one transaction.
pub trait I2cBus {
    type Error;

    /// Sends `bytes` to the device at `address`.
    fn write(&mut self, address: u8, bytes: &[u8]) -> Result<(), Self::Error>;

    /// Fills `buffer` with bytes read from the device at `address`.
    fn read(&mut self, address: u8, buffer: &mut [u8]) -> (r: Result<(), Self::Error>)
        ensures
            final(buffer)@.len() == old(buffer)@.len(),
    ;

    /// Sends `bytes`, then fills `buffer`, in one transaction.
    fn write_read(&mut self, address: u8, bytes: &[u8], buffer: &mut [u8]) -> (r: Result<(), Self::Error>)
        ensures
            final(buffer)@.len() == old(buffer)@.len(),
    ;
}

/// The shape of one bus transfer.
pub enum TransferKind {
    Write,
    Read,
    WriteRead,
}

/// One completed bus transfer as a driver issued it: what was sent, what came
/// back, and how the bus reported it.
pub struct Transfer<E> {
    pub kind: TransferKind,
    pub address: u8,
    pub sent: Seq<u8>,
    pub received: Seq<u8>,
    pub outcome: Result<(), E>,
}

/// A bus failure seen as a driver error.
pub open spec fn lift<E>(outcome: Result<(), E>) -> Result<(), Error<E>> {
    match outcome {
        Ok(()) => Ok(()),
        Err(e) => Err(Error::I2c(e)),
    }
}

/// The value read by a transfer with outcome `outcome`, as a driver result.
pub open spec fn lift_value<E, T>(outcome: Result<(), E>, value: T) -> Result<T, Error<E>> {
    match outcome {
        Ok(()) => Ok(value),
        Err(e) => Err(Error::I2c(e)),
    }
}

/// A burst-read result with the bytes seen as a sequence.
pub open spec fn bytes_of<E>(r: Result<Vec<u8>, Error<E>>) -> Result<Seq<u8>, Error<E>> {
    match r {
        Ok(v) => Ok(v@),
        Err(e) => Err(e),
    }
}

/// `t` wrote exactly `bytes` to `address`.
pub open spec fn is_write<E>(t: Transfer<E>, address: u8, bytes: Seq<u8>) -> bool {
    &&& t.kind is Write
    &&& t.address == address
    &&& t.sent == bytes
    &&& t.received.len() == 0
}

/// `t` read `n` bytes from `address` with no register selected first.
pub open spec fn is_plain_read<E>(t: Transfer<E>, address: u8, n: nat) -> bool {
    &&& t.kind is Read
    &&& t.address == address
    &&& t.sent.len() == 0
    &&& t.received.len() == n
}

/// `t` selected register `reg` of `address` and read `n` bytes from there.
pub open spec fn is_register_read<E>(t: Transfer<E>, address: u8, reg: u8, n: nat) -> bool {
    &&& t.kind is WriteRead
    &&& t.address == address
    &&& t.sent == seq![reg]
    &&& t.received.len() == n
}

/// The register read of one byte from `reg` at index `at` of `log`: where it
/// ends and what it returned; `None` if `log` holds no such read there.
pub open spec fn register_byte<E>(log: Seq<Transfer<E>>, address: u8, at: int, reg: u8) -> Option<(int, Result<u8, Error<E>>)> {
    if 0 <= at < log.len() && is_register_read(log[at], address, reg, 1) {
        Some((at + 1, lift_value(log[at].outcome, log[at].received[0])))
    } else {
        None
    }
}

/// The new value of a register after a read-modify-write that keeps the bits
/// of `keep` and then sets those of `set`.
pub open spec fn modified(value: u8, keep: u8, set: u8) -> u8 {
    (value & keep) | set
}

/// What a step writes back to its register when that register held
/// `current`: the fixed value of a write, the modified value of a
/// read-modify-write; a check writes nothing and leaves `current`.
pub open spec fn written_value(step: Step, current: u8) -> u8 {
    match step {
        Step::Write { value, .. } => value,
        Step::Modify { keep, set, .. } => modified(current, keep, set),
        Step::SelectModify { keep, set, .. } => modified(current, keep, set),
        Step::Expect { .. } => current,
    }
}

/// One register-level action that a driver operation is made of.
#[derive(Clone, Copy)]
pub enum Step {
    /// Write `value` into `reg`.
    Write { reg: u8, value: u8 },
    /// Read `reg` with one write-read, write back `modified(old, keep, set)`.
    Modify { reg: u8, keep: u8, set: u8 },
    /// The same through a register-select write, a plain read and a write.
    SelectModify { reg: u8, keep: u8, set: u8 },
    /// Read `reg`; anything but `value` fails with `NotDetected`.
    Expect { reg: u8, value: u8 },
}

/// Where the transfers of `step` on `address`, starting at index `at` of
/// `log`, end, and what the step returned; `None` if `log` does not hold
/// those transfers there.
pub open spec fn step_outcome<E>(step: Step, address: u8, log: Seq<Transfer<E>>, at: int) -> Option<(int, Result<(), Error<E>>)> {
    if !(0 <= at < log.len()) {
        None
    } else {
        let t = log[at];
        match step {
            Step::Write { reg, value } => {
                if is_write(t, address, seq![reg, value]) {
                    Some((at + 1, lift(t.outcome)))
                } else {
                    None
                }
            },
            Step::Modify { reg, keep, set } => {
                if !is_register_read(t, address, reg, 1) {
                    None
                } else {
                    match t.outcome {
                        Err(e) => Some((at + 1, Err(Error::I2c(e)))),
                        Ok(()) => {
                            let w = modified(t.received[0], keep, set);
                            if at + 1 < log.len() && is_write(log[at + 1], address, seq![reg, w]) {
                                Some((at + 2, lift(log[at + 1].outcome)))
                            } else {
                                None
                            }
                        },
                    }
                }
            },
            Step::SelectModify { reg, keep, set } => {
                if !is_write(t, address, seq![reg]) {
                    None
                } else {
                    match t.outcome {
                        Err(e) => Some((at + 1, Err(Error::I2c(e)))),
                        Ok(()) => {
                            if !(at + 1 < log.len() && is_plain_read(log[at + 1], address, 1)) {
                                None
                            } else {
                                let rd = log[at + 1];
                                match rd.outcome {
                                    Err(e) => Some((at + 2, Err(Error::I2c(e)))),
                                    Ok(()) => {
                                        let w = modified(rd.received[0], keep, set);
                                        if at + 2 < log.len() && is_write(log[at + 2], address, seq![reg, w]) {
                                            Some((at + 3, lift(log[at + 2].outcome)))
                                        } else {
                                            None
                                        }
                                    },
                                }
                            }
                        },
                    }
                }
            },
            Step::Expect { reg, value } => {
                if !is_register_read(t, address, reg, 1) {
                    None
                } else {
                    match t.outcome {
                        Err(e) => Some((at + 1, Err(Error::I2c(e)))),
                        Ok(()) => Some(
                            (at + 1, if t.received[0] == value { Ok(()) } else { Err(Error::NotDetected) }),
                        ),
                    }
                }
            },
        }
    }
}

/// Runs `steps` in order from index `at` of `log`, stopping after the first
/// step that fails: where the transfers end and what the sequence returned.
pub open spec fn run_outcome<E>(steps: Seq<Step>, address: u8, log: Seq<Transfer<E>>, at: int) -> Option<(int, Result<(), Error<E>>)>
    decreases steps.len(),
{
    if steps.len() == 0 {
        Some((at, Ok(())))
    } else {
        match run_outcome(steps.drop_last(), address, log, at) {
            Some((mid, Ok(()))) => step_outcome(steps.last(), address, log, mid),
            other => other,
        }
    }
}

/// A sequence of one step has that step's outcome.
pub proof fn lemma_run_outcome_single<E>(step: Step, address: u8, log: Seq<Transfer<E>>, at: int)
    ensures
        run_outcome(seq![step], address, log, at) == step_outcome(step, address, log, at),
{
    assert(seq![step].drop_last() =~= Seq::<Step>::empty());
    reveal_with_fuel(run_outcome, 2);
}

/// Starting-with is transitive.
pub proof fn lemma_prefix_trans<E>(a: Seq<Transfer<E>>, b: Seq<Transfer<E>>, c: Seq<Transfer<E>>)
    requires
        a.len() <= b.len(),
        b.subrange(0, a.len() as int) == a,
        b.len() <= c.len(),
        c.subrange(0, b.len() as int) == b,
    ensures
        c.subrange(0, a.len() as int) == a,
{
    assert(c.subrange(0, a.len() as int) =~= c.subrange(0, b.len() as int).subrange(0, a.len() as int));
}

/// A log and a longer one that starts with it agree on every index of the
/// shorter one.
pub proof fn lemma_prefix_agrees<E>(log: Seq<Transfer<E>>, longer: Seq<Transfer<E>>)
    requires
        log.len() <= longer.len(),
        longer.subrange(0, log.len() as int) == log,
    ensures
        forall|i: int| 0 <= i < log.len() ==> #[trigger] longer[i] == log[i],
{
    assert forall|i: int| 0 <= i < log.len() implies #[trigger] longer[i] == log[i] by {
        assert(longer.subrange(0, log.len() as int)[i] == longer[i]);
    }
}

/// A step's transfers, once in the log, stay what they were as the log grows.
pub proof fn lemma_step_outcome_extends<E>(step: Step, address: u8, log: Seq<Transfer<E>>, longer: Seq<Transfer<E>>, at: int)
    requires
        step_outcome(step, address, log, at) is Some,
        log.len() <= longer.len(),
        longer.subrange(0, log.len() as int) == log,
    ensures
        step_outcome(step, address, longer, at) == step_outcome(step, address, log, at),
{
    assert forall|i: int| 0 <= i < log.len() implies longer[i] == log[i] by {
        assert(longer.subrange(0, log.len() as int)[i] == longer[i]);
    }
}

/// Growing the log leaves the outcome of steps already in it unchanged.
pub proof fn lemma_run_outcome_extends<E>(steps: Seq<Step>, address: u8, log: Seq<Transfer<E>>, longer: Seq<Transfer<E>>, at: int)
    requires
        run_outcome(steps, address, log, at) is Some,
        log.len() <= longer.len(),
        longer.subrange(0, log.len() as int) == log,
    ensures
        run_outcome(steps, address, longer, at) == run_outcome(steps, address, log, at),
    decreases steps.len(),
{
    if steps.len() > 0 {
        lemma_run_outcome_extends(steps.drop_last(), address, log, longer, at);
        match run_outcome(steps.drop_last(), address, log, at) {
            Some((mid, Ok(()))) => {
                lemma_step_outcome_extends(steps.last(), address, log, longer, mid);
            },
            _ => {},
        }
    }
}

/// Once a step has failed, the steps after it add nothing.
pub proof fn lemma_run_outcome_stops<E>(steps: Seq<Step>, more: Seq<Step>, address: u8, log: Seq<Transfer<E>>, at: int)
    requires
        run_outcome(steps, address, log, at) matches Some((_, r)) && r is Err,
    ensures
        run_outcome(steps + more, address, log, at) == run_outcome(steps, address, log, at),
    decreases more.len(),
{
    if more.len() > 0 {
        lemma_run_outcome_stops(steps, more.drop_last(), address, log, at);
        assert((steps + more).drop_last() =~= steps + more.drop_last());
    }
}

/// Running `steps` and then `step` is running `steps.push(step)`.
pub proof fn lemma_performed_then<B: I2cBus>(
    a: Device<B>,
    b: Device<B>,
    c: Device<B>,
    steps: Seq<Step>,
    step: Step,
    r: Result<(), Error<B::Error>>,
)
    requires
        b.performed(a, steps, Ok(())),
        c.performed(b, seq![step], r),
    ensures
        c.performed(a, steps.push(step), r),
{
    lemma_prefix_trans(a.log(), b.log(), c.log());
    lemma_run_outcome_extends(steps, a.address, b.log(), c.log(), a.log().len() as int);
    lemma_run_outcome_single(step, a.address, c.log(), b.log().len() as int);
    assert(steps.push(step).drop_last() =~= steps);
}

/// A failed run of `steps` is also a failed run of `steps + more`.
pub proof fn lemma_performed_stops<B: I2cBus>(
    a: Device<B>,
    b: Device<B>,
    steps: Seq<Step>,
    more: Seq<Step>,
    r: Result<(), Error<B::Error>>,
)
    requires
        b.performed(a, steps, r),
        r is Err,
    ensures
        b.performed(a, steps + more, r),
{
    lemma_run_outcome_stops(steps, more, a.address, b.log(), a.log().len() as int);
}

/// Extending is transitive.
pub proof fn lemma_extends_trans<B: I2cBus>(a: Device<B>, b: Device<B>, c: Device<B>)
    requires
        b.extends(a),
        c.extends(b),
    ensures
        c.extends(a),
{
    lemma_prefix_trans(a.log(), b.log(), c.log());
}

/// A device that extends another keeps every transfer of the other where it
/// was.
pub proof fn lemma_extends_agrees<B: I2cBus>(a: Device<B>, b: Device<B>)
    requires
        b.extends(a),
    ensures
        forall|i: int| 0 <= i < a.log().len() ==> #[trigger] b.log()[i] == a.log()[i],
{
    lemma_prefix_agrees(a.log(), b.log());
}

/// A device that started with no step run has performed the empty sequence.
pub proof fn lemma_performed_nothing<B: I2cBus>(a: Device<B>)
    ensures
        a.performed(a, Seq::<Step>::empty(), Ok(())),
{
    assert(a.log().subrange(0, a.log().len() as int) =~= a.log());
}

/// A driver's connection to its device: the bus, the device's address, and
/// the transfers made on the bus so far.
///
/// The bus and the transcript are private to this module. The transcript is
/// extended only by `write`, `read_byte`, `read_register` and
/// `read_registers`, each by the one bus transfer it makes, recording the
/// bytes it handed to the bus, the bytes the bus put in its buffer and the
/// result the bus returned. Every other operation is built on those four, so
/// its contract, stated over the transcript, speaks of what went over the bus.
pub struct Device<B: I2cBus> {
    bus: B,
    address: u8,
    history: Ghost<Seq<Transfer<B::Error>>>,
}

impl<B: I2cBus> Device<B> {
    /// The transfers made on the bus through this device, oldest first.
    pub closed spec fn log(self) -> Seq<Transfer<B::Error>> {
        self.history@
    }

    /// The address of the device on the bus.
    pub closed spec fn address(self) -> u8 {
        self.address
    }

    /// The bus.
    pub closed spec fn controller(self) -> B {
        self.bus
    }

    /// `self` is `before` with transfers appended.
    pub open spec fn extends(self, before: Self) -> bool {
        &&& self.address() == before.address()
        &&& before.log().len() <= self.log().len()
        &&& self.log().subrange(0, before.log().len() as int) == before.log()
    }

    /// `self` is `before` after running `steps`, which returned `r`.
    pub open spec fn performed(self, before: Self, steps: Seq<Step>, r: Result<(), Error<B::Error>>) -> bool {
        &&& self.extends(before)
        &&& run_outcome(steps, self.address(), self.log(), before.log().len() as int) == Some((self.log().len() as int, r))
    }

    /// `self` is `before` with the one transfer `t` appended.
    pub open spec fn issued(self, before: Self, t: Transfer<B::Error>) -> bool {
        &&& self.address() == before.address()
        &&& self.log() == before.log().push(t)
    }

    /// The transfer issued last.
    pub open spec fn last(self) -> Transfer<B::Error> {
        self.log().last()
    }

    pub fn new(bus: B, address: u8) -> (r: Self)
        ensures
            r.address() == address,
            r.log() == Seq::<Transfer<B::Error>>::empty(),
            r.controller() == bus,
    {
        Device { bus, address, history: Ghost(Seq::empty()) }
    }

    /// The bus, for inspection.
    pub fn bus(&self) -> (r: &B)
        ensures
            *r == self.controller(),
    {
        &self.bus
    }

    /// The bus, handed back.
    pub fn release(self) -> (r: B)
        ensures
            r == self.controller(),
    {
        self.bus
    }

    /// Writes `bytes` to the device.
    pub fn write(&mut self, bytes: &[u8]) -> (r: Result<(), Error<B::Error>>)
        ensures
            final(self).issued(*old(self), final(self).last()),
            final(self).extends(*old(self)),
            is_write(final(self).last(), old(self).address(), bytes@),
            r == lift(final(self).last().outcome),
    {
        let outcome = self.bus.write(self.address, bytes);
        let ghost t = Transfer {
            kind: TransferKind::Write,
            address: self.address,
            sent: bytes@,
            received: Seq::empty(),
            outcome,
        };
        self.history = Ghost(self.history@.push(t));
        proof {
            assert(self.history@.subrange(0, old(self).history@.len() as int) =~= old(self).history@);
        }
        match outcome {
            Ok(()) => Ok(()),
            Err(e) => Err(Error::I2c(e)),
        }
    }

    /// Reads one byte from register `reg`.
    pub fn read_register(&mut self, reg: u8) -> (r: Result<u8, Error<B::Error>>)
        ensures
            final(self).issued(*old(self), final(self).last()),
            final(self).extends(*old(self)),
            is_register_read(final(self).last(), old(self).address(), reg, 1),
            r == lift_value(final(self).last().outcome, final(self).last().received[0]),
    {
        let mut buffer = [0u8; 1];
        let outcome = self.bus.write_read(self.address, &[reg], &mut buffer);
        let ghost t = Transfer {
            kind: TransferKind::WriteRead,
            address: self.address,
            sent: seq![reg],
            received: buffer@,
            outcome,
        };
        self.history = Ghost(self.history@.push(t));
        proof {
            assert(self.history@.subrange(0, old(self).history@.len() as int) =~= old(self).history@);
        }
        match outcome {
            Ok(()) => Ok(buffer[0]),
            Err(e) => Err(Error::I2c(e)),
        }
    }

    /// Reads `n` consecutive bytes starting at register `reg`, in one burst.
    pub fn read_registers(&mut self, reg: u8, n: usize) -> (r: Result<Vec<u8>, Error<B::Error>>)
        ensures
            final(self).issued(*old(self), final(self).last()),
            final(self).extends(*old(self)),
            is_register_read(final(self).last(), old(self).address(), reg, n as nat),
            bytes_of(r) == lift_value(final(self).last().outcome, final(self).last().received),
    {
        let mut buffer: Vec<u8> = vec![0u8; n];
        let outcome = self.bus.write_read(self.address, &[reg], buffer.as_mut_slice());
        let ghost t = Transfer {
            kind: TransferKind::WriteRead,
            address: self.address,
            sent: seq![reg],
            received: buffer@,
            outcome,
        };
        self.history = Ghost(self.history@.push(t));
        proof {
            assert(self.history@.subrange(0, old(self).history@.len() as int) =~= old(self).history@);
        }
        match outcome {
            Ok(()) => Ok(buffer),
            Err(e) => Err(Error::I2c(e)),
        }
    }

    /// Reads one byte from the device with no register selected first.
    pub fn read_byte(&mut self) -> (r: Result<u8, Error<B::Error>>)
        ensures
            final(self).issued(*old(self), final(self).last()),
            final(self).extends(*old(self)),
            is_plain_read(final(self).last(), old(self).address(), 1),
            r == lift_value(final(self).last().outcome, final(self).last().received[0]),
    {
        let mut buffer = [0u8; 1];
        let outcome = self.bus.read(self.address, &mut buffer);
        let ghost t = Transfer {
            kind: TransferKind::Read,
            address: self.address,
            sent: Seq::empty(),
            received: buffer@,
            outcome,
        };
        self.history = Ghost(self.history@.push(t));
        proof {
            assert(self.history@.subrange(0, old(self).history@.len() as int) =~= old(self).history@);
        }
        match outcome {
            Ok(()) => Ok(buffer[0]),
            Err(e) => Err(Error::I2c(e)),
        }
    }

    /// Writes `value` into register `reg`.
    pub fn write_register(&mut self, reg: u8, value: u8) -> (r: Result<(), Error<B::Error>>)
        ensures
            final(self).issued(*old(self), final(self).last()),
            final(self).extends(*old(self)),
            is_write(final(self).last(), old(self).address(), seq![reg, value]),
            r == lift(final(self).last().outcome),
    {
        let bytes = [reg, value];
        proof {
            assert(bytes@ =~= seq![reg, value]);
        }
        self.write(&bytes)
    }

    /// Performs one step.
    pub fn run_step(&mut self, step: Step) -> (r: Result<(), Error<B::Error>>)
        ensures
            final(self).performed(*old(self), seq![step], r),
    {
        let ghost start = self.log().len() as int;
        let r = match step {
            Step::Write { reg, value } => self.write_register(reg, value),
            Step::Modify { reg, keep, set } => {
                match self.read_register(reg) {
                    Err(e) => Err(e),
                    Ok(v) => self.write_register(reg, (v & keep) | set),
                }
            },
            Step::SelectModify { reg, keep, set } => {
                let select = [reg];
                proof {
                    assert(select@ =~= seq![reg]);
                }
                match self.write(&select) {
                    Err(e) => Err(e),
                    Ok(()) => {
                        match self.read_byte() {
                            Err(e) => Err(e),
                            Ok(v) => self.write_register(reg, (v & keep) | set),
                        }
                    },
                }
            },
            Step::Expect { reg, value } => {
                match self.read_register(reg) {
                    Err(e) => Err(e),
                    Ok(v) => if v == value {
                        Ok(())
                    } else {
                        Err(Error::NotDetected)
                    },
                }
            },
        };
        proof {
            lemma_run_outcome_single(step, self.address, self.log(), start);
            assert(self.log().subrange(0, old(self).log().len() as int) =~= old(self).log());
        }
        r
    }

    /// Performs `steps` in order, stopping at the first that fails.
    pub fn run_steps(&mut self, steps: &[Step]) -> (r: Result<(), Error<B::Error>>)
        ensures
            final(self).performed(*old(self), steps@, r),
    {
        let ghost start = self.log().len() as int;
        let mut i: usize = 0;
        proof {
            assert(steps@.take(0) =~= Seq::<Step>::empty());
            assert(self.log().subrange(0, start) =~= self.log());
        }
        while i < steps.len()
            invariant
                0 <= i <= steps@.len(),
                start == old(self).log().len(),
                self.extends(*old(self)),
                run_outcome(steps@.take(i as int), self.address, self.log(), start) == Some((self.log().len() as int, Ok::<(), Error<B::Error>>(()))),
            decreases steps@.len() - i,
        {
            let ghost mid = self.log();
            let r = self.run_step(steps[i]);
            proof {
                lemma_run_outcome_single(steps[i as int], self.address, self.log(), mid.len() as int);
                lemma_run_outcome_extends(steps@.take(i as int), self.address, mid, self.log(), start);
                assert(steps@.take(i + 1).drop_last() =~= steps@.take(i as int));
                assert(self.log().subrange(0, start) =~= self.log().subrange(0, mid.len() as int).subrange(0, start));
            }
            if r.is_err() {
                proof {
                    lemma_run_outcome_stops(steps@.take(i + 1), steps@.skip(i + 1), self.address, self.log(), start);
                    assert(steps@.take(i + 1) + steps@.skip(i + 1) =~= steps@);
                }
                return r;
            }
            i += 1;
        }
        proof {
            assert(steps@.take(steps@.len() as int) =~= steps@);
        }
        Ok(())
    }
}

} // verus!
