use vstd::prelude::*;

use crate::battery::Command;

verus! {

/// How many ADC readings make up one measurement.
pub const ADC_READ_REPETITION: u8 = 10;

/// Pause between two ADC readings of one measurement, in milliseconds.
pub const DELAY_MEASUREMENT_MS: u32 = 100;

/// Pause after each measurement command is sent, in milliseconds.
pub const DELAY_COMMAND_DURATION_MS: u32 = 100;

/// Pause at the end of each round of measurement commands, in milliseconds.
pub const DELAY_SLEEP_DURATION_MS: u32 = 30_000;

/// The sensors that answer measurement commands, one per GPIO pin.
#[derive(Debug, Clone, Copy, PartialEq, Eq, Structural)]
pub enum SensorSlot {
    Gpio0,
    Gpio1,
    Gpio4,
}

impl SensorSlot {
    /// The number of the GPIO pin that this sensor measures.
    pub open spec fn gpio(self) -> int {
        match self {
            SensorSlot::Gpio0 => 0,
            SensorSlot::Gpio1 => 1,
            SensorSlot::Gpio4 => 4,
        }
    }
}

/// The pin number that a command asks to measure.
pub open spec fn command_pin(command: Command) -> int {
    match command {
        Command::Measure(pin_id) => pin_id as int,
    }
}

/// The sensor that a command asks to measure, where one answers for that pin.
pub open spec fn spec_route(command: Command) -> Option<SensorSlot> {
    match command {
        Command::Measure(pin_id) => if pin_id == 0 {
            Some(SensorSlot::Gpio0)
        } else if pin_id == 1 {
            Some(SensorSlot::Gpio1)
        } else if pin_id == 4 {
            Some(SensorSlot::Gpio4)
        } else {
            None
        },
    }
}

/// The sensor to measure on a command; `None` for a pin that no sensor
/// answers, on which the command is ignored.
pub fn route(command: &Command) -> (slot: Option<SensorSlot>)
    ensures
        slot == spec_route(*command),
        forall|s: SensorSlot| slot == Some(s) <==> s.gpio() == command_pin(*command),
        slot is None <==> forall|s: SensorSlot| s.gpio() != command_pin(*command),
{
    match command {
        Command::Measure(pin_id) => {
            if *pin_id == 0 {
                assert(SensorSlot::Gpio0.gpio() == command_pin(*command));
                Some(SensorSlot::Gpio0)
            } else if *pin_id == 1 {
                assert(SensorSlot::Gpio1.gpio() == command_pin(*command));
                Some(SensorSlot::Gpio1)
            } else if *pin_id == 4 {
                assert(SensorSlot::Gpio4.gpio() == command_pin(*command));
                Some(SensorSlot::Gpio4)
            } else {
                proof {
                    assert forall|s: SensorSlot| s.gpio() != command_pin(*command) by {
                        match s {
                            SensorSlot::Gpio0 => {},
                            SensorSlot::Gpio1 => {},
                            SensorSlot::Gpio4 => {},
                        }
                    }
                }
                None
            }
        },
    }
}

/// What the command producer does next.
#[derive(Debug, Clone, Copy, PartialEq, Eq, Structural)]
pub enum ProducerStep {
    /// Send this command.
    Send(Command),
    /// Wait this many milliseconds.
    Wait(u32),
}

/// The number of steps in one round of the command producer.
pub const PRODUCER_ROUND_LEN: u8 = 11;

/// The pins measured in one round, in the order their commands are sent.
pub open spec fn round_pins() -> Seq<i32> {
    seq![3i32, 4i32, 0i32, 1i32, 2i32]
}

/// The step at a position of the round: each pin of the round in turn is sent
/// a measurement command followed by a short wait, and the round ends with a
/// long sleep.
pub open spec fn round_step(position: int) -> ProducerStep {
    if 0 <= position < 10 {
        if position % 2 == 0 {
            ProducerStep::Send(Command::Measure(round_pins()[position / 2]))
        } else {
            ProducerStep::Wait(DELAY_COMMAND_DURATION_MS)
        }
    } else {
        ProducerStep::Wait(DELAY_SLEEP_DURATION_MS)
    }
}

/// Produces measurement commands round after round, forever.
pub struct CommandProducer {
    position: u8,
}

impl CommandProducer {
    #[verifier::type_invariant]
    closed spec fn within_round(self) -> bool {
        self.position < PRODUCER_ROUND_LEN
    }

    /// The position of the next step within the current round.
    pub closed spec fn position(self) -> int {
        self.position as int
    }

    /// A producer at the start of a round.
    pub fn new() -> (producer: CommandProducer)
        ensures
            producer.position() == 0,
    {
        CommandProducer { position: 0 }
    }

    /// The next step, after which the producer moves on, wrapping around at
    /// the end of the round.
    pub fn next_step(&mut self) -> (step: ProducerStep)
        ensures
            0 <= old(self).position() < PRODUCER_ROUND_LEN,
            step == round_step(old(self).position()),
            final(self).position() == (old(self).position() + 1) % (PRODUCER_ROUND_LEN as int),
    {
        proof {
            use_type_invariant(&*self);
        }
        let position = self.position;
        let step = match position {
            0 => ProducerStep::Send(Command::Measure(3)),
            2 => ProducerStep::Send(Command::Measure(4)),
            4 => ProducerStep::Send(Command::Measure(0)),
            6 => ProducerStep::Send(Command::Measure(1)),
            8 => ProducerStep::Send(Command::Measure(2)),
            10 => ProducerStep::Wait(DELAY_SLEEP_DURATION_MS),
            _ => ProducerStep::Wait(DELAY_COMMAND_DURATION_MS),
        };
        let next = if position + 1 == PRODUCER_ROUND_LEN { 0 } else { position + 1 };
        self.position = next;
        step
    }
}

/// Whether the step at this position of the round sends a command that the
/// given sensor answers.
pub open spec fn measures_at(position: int, slot: SensorSlot) -> bool {
    match round_step(position) {
        ProducerStep::Send(command) => spec_route(command) == Some(slot),
        ProducerStep::Wait(_) => false,
    }
}

/// Every sensor that answers commands is asked to measure exactly once in
/// each round of the producer.
pub proof fn lemma_each_sensor_measured_once_per_round(slot: SensorSlot)
    ensures
        exists|p: int| 0 <= p < PRODUCER_ROUND_LEN && #[trigger] measures_at(p, slot),
        forall|p: int, q: int|
            0 <= p < PRODUCER_ROUND_LEN && 0 <= q < PRODUCER_ROUND_LEN && #[trigger] measures_at(p, slot)
                && #[trigger] measures_at(q, slot) ==> p == q,
{
    assert(round_pins()[0] == 3 && round_pins()[1] == 4 && round_pins()[2] == 0 && round_pins()[3] == 1
        && round_pins()[4] == 2);
    assert forall|p: int| 0 <= p < PRODUCER_ROUND_LEN && #[trigger] measures_at(p, slot) implies
        (p == 2 && slot == SensorSlot::Gpio4) || (p == 4 && slot == SensorSlot::Gpio0)
            || (p == 6 && slot == SensorSlot::Gpio1) by {
        assert(p == 0 || p == 1 || p == 2 || p == 3 || p == 4 || p == 5 || p == 6 || p == 7 || p == 8
            || p == 9 || p == 10);
    }
    match slot {
        SensorSlot::Gpio0 => assert(measures_at(4, slot)),
        SensorSlot::Gpio1 => assert(measures_at(6, slot)),
        SensorSlot::Gpio4 => assert(measures_at(2, slot)),
    }
}

/// The position a producer reaches from `start` after `steps` calls of
/// `next_step`, each of which moves it on by one and wraps at the round's end.
pub open spec fn position_after(start: int, steps: nat) -> int
    decreases steps,
{
    if steps == 0 {
        start
    } else {
        (position_after(start, (steps - 1) as nat) + 1) % (PRODUCER_ROUND_LEN as int)
    }
}

/// The producer repeats one round forever: from the start of a round, the
/// step taken after `steps` earlier steps is the step at position
/// `steps` modulo the round's length.
pub proof fn lemma_producer_is_periodic(steps: nat)
    ensures
        position_after(0, steps) == (steps as int) % (PRODUCER_ROUND_LEN as int),
    decreases steps,
{
    if steps > 0 {
        lemma_producer_is_periodic((steps - 1) as nat);
        let a = (steps - 1) as int;
        assert(((a % 11) + 1) % 11 == (a + 1) % 11) by (nonlinear_arith)
            requires
                a >= 0,
        ;
    }
}

/// A command is routed to a sensor exactly when it names that sensor's pin,
/// and is ignored exactly when no sensor measures the pin it names.
pub proof fn lemma_route_follows_pin(command: Command, slot: SensorSlot)
    ensures
        spec_route(command) == Some(slot) <==> slot.gpio() == command_pin(command),
        spec_route(command) is None <==> forall|s: SensorSlot| s.gpio() != command_pin(command),
{
    if spec_route(command) is None {
        assert forall|s: SensorSlot| s.gpio() != command_pin(command) by {
            match s {
                SensorSlot::Gpio0 => {},
                SensorSlot::Gpio1 => {},
                SensorSlot::Gpio4 => {},
            }
        }
    } else {
        let s = spec_route(command)->0;
        assert(s.gpio() == command_pin(command));
    }
}

} // verus!
