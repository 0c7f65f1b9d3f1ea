//! The PS/2 controller's decisions: its status bits, the configuration it
//! is given, its self tests, and the acknowledge-or-resend protocol of the
//! keyboard's commands.
use vstd::prelude::*;

verus! {

/// How many times the driver polls the status register before giving up.
pub const PS2_TIMEOUT: u32 = 100_000;

/// How many times a keyboard command is sent before giving up.
pub const KEYBOARD_COMMAND_TRIES: u32 = 10;

/// The answer of a passed controller self test.
pub const SELF_TEST_PASSED: u8 = 0x55;

/// The keyboard's answer to a reset that passed its self test.
pub const KEYBOARD_RESET_PASSED: u8 = 0xAA;

/// The keyboard's acknowledgement.
pub const ACK: u8 = 0xFA;

/// The keyboard's request to send the command again.
pub const RESEND: u8 = 0xFE;

/// Whether the output buffer holds a byte to read (status bit 0).
pub fn output_full(status: u8) -> (b: bool)
    ensures
        b == (status % 2 == 1),
{
    assert(status & 1 == 1 <==> status % 2 == 1) by (bit_vector);
    status & 1 == 1
}

/// Whether the controller may take a byte (status bit 1 clear).
pub fn can_write(status: u8) -> (b: bool)
    ensures
        b == ((status / 2) % 2 == 0),
{
    assert(status & 2 == 0 <==> (status / 2) % 2 == 0) by (bit_vector);
    status & 2 == 0
}

/// The controller configuration while devices are set up: the interrupts
/// of both ports (bits 0 and 1) and translation (bit 6) off, the rest kept.
pub fn setup_configuration(configuration: u8) -> (c: u8)
    ensures
        c == configuration & !0x43u8,
{
    let c = configuration;
    assert(c & !(1u8 | 2u8 | 64u8) == c & !0x43u8) by (bit_vector);
    c & !(1u8 | 2u8 | 64u8)
}

/// The configuration that enables the first port's interrupt (bit 0).
pub fn keyboard_interrupt_configuration(configuration: u8) -> (c: u8)
    ensures
        c == configuration | 1,
{
    configuration | 1
}

/// Whether the controller passed its self test.
pub fn self_test_passed(result: u8) -> (b: bool)
    ensures
        b == (result == SELF_TEST_PASSED),
{
    result == SELF_TEST_PASSED
}

/// A port test answers 0 when it passed; the message says which port
/// failed otherwise.
pub fn port_test_result(keyboard_port: bool, result: u8) -> (r: Result<(), &'static str>)
    ensures
        result == 0 ==> r is Ok,
        result != 0 && keyboard_port ==> (r matches Err(m) && m@ == "Keyboard port failed test"@),
        result != 0 && !keyboard_port ==> (r matches Err(m) && m@ == "Mouse port failed test"@),
{
    if result != 0 {
        if keyboard_port {
            Err("Keyboard port failed test")
        } else {
            Err("Mouse port failed test")
        }
    } else {
        Ok(())
    }
}

/// What the driver does after the keyboard answers a command.
#[derive(Clone, Copy, Debug)]
pub enum CommandAnswer {
    /// Send the command again.
    Resend,
    /// The command was acknowledged.
    Done,
    /// The command failed, with the reason.
    Failed(&'static str),
}

/// A keyboard command being sent: the tries made so far.
pub struct KeyboardCommand {
    tries: u32,
}

impl KeyboardCommand {
    /// The tries made so far.
    pub closed spec fn spec_tries(&self) -> u32 {
        self.tries
    }

    /// A command not yet sent.
    pub fn new() -> (c: Self)
        ensures
            c.spec_tries() == 0,
    {
        KeyboardCommand { tries: 0 }
    }

    /// Whether the command may be sent (again): fewer than ten tries so far.
    pub fn may_send(&self) -> (b: bool)
        ensures
            b == (self.spec_tries() < KEYBOARD_COMMAND_TRIES),
    {
        self.tries < KEYBOARD_COMMAND_TRIES
    }

    /// The keyboard answered a try: a resend request asks for another try,
    /// or ends the command with "too many resends" after the tenth; the
    /// acknowledgement ends it; any other answer fails it.
    pub fn answer(&mut self, response: u8) -> (a: CommandAnswer)
        requires
            old(self).spec_tries() < KEYBOARD_COMMAND_TRIES,
        ensures
            final(self).spec_tries() == old(self).spec_tries() + 1,
            response == RESEND && final(self).spec_tries() < KEYBOARD_COMMAND_TRIES ==> a is Resend,
            response == RESEND && final(self).spec_tries() == KEYBOARD_COMMAND_TRIES ==> (a matches CommandAnswer::Failed(m)
                && m@ == "Keyboard required too many command resends"@),
            response == ACK ==> a is Done,
            response != RESEND && response != ACK ==> (a matches CommandAnswer::Failed(m) && m@
                == "Keyboard didn't acknolodge command"@),
    {
        self.tries = self.tries + 1;
        if response == RESEND {
            if self.tries < KEYBOARD_COMMAND_TRIES {
                CommandAnswer::Resend
            } else {
                CommandAnswer::Failed("Keyboard required too many command resends")
            }
        } else if response != ACK {
            CommandAnswer::Failed("Keyboard didn't acknolodge command")
        } else {
            CommandAnswer::Done
        }
    }
}

} // verus!
