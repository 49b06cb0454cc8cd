//! The terminal that the input loop works against.
//!
//! The loop needs a byte source, a text sink, and a terminal mode that can be
//! switched to raw and restored. The trait models these with spec functions:
//! `mode()` is the current terminal mode, `saved()` the mode remembered by the
//! last successful `enter_raw`, `out()` the text written so far, and
//! `input_left()` the bytes the byte source still holds. `StdTerminal` is the
//! process's real terminal; a test or an embedder may substitute its own
//! implementation.

use vstd::prelude::*;
use crate::error::RellError;

verus! {

/// A terminal: byte source, text sink, and a switchable mode.
pub trait Terminal {
    /// The current terminal mode, as an abstract value.
    open spec fn mode(&self) -> int {
        arbitrary()
    }

    /// The mode remembered by the last successful `enter_raw`.
    open spec fn saved(&self) -> int {
        arbitrary()
    }

    /// Everything written to the terminal so far.
    open spec fn out(&self) -> Seq<char> {
        arbitrary()
    }

    /// How many more bytes the terminal will deliver: input is modeled as a
    /// finite stream, whose end (or any read failure) surfaces as an `IoRead`
    /// error from `read_byte`.
    open spec fn input_left(&self) -> nat {
        arbitrary()
    }

    /// Remember the current mode and switch the terminal to raw mode
    /// (no line buffering, no local echo).
    fn enter_raw(&mut self) -> (r: Result<(), RellError>)
        ensures
            final(self).out() == old(self).out(),
            final(self).input_left() == old(self).input_left(),
            r is Ok ==> final(self).saved() == old(self).mode(),
            r is Err ==> final(self).mode() == old(self).mode() && final(self).saved() == old(
                self,
            ).saved(),
            r is Err ==> r == Err::<(), RellError>(RellError::TerminalMode),
    ;

    /// Set the terminal mode back to the one remembered by `enter_raw`.
    fn restore_mode(&mut self) -> (r: Result<(), RellError>)
        ensures
            final(self).out() == old(self).out(),
            final(self).saved() == old(self).saved(),
            final(self).input_left() == old(self).input_left(),
            r is Ok ==> final(self).mode() == old(self).saved(),
            r is Err ==> r == Err::<(), RellError>(RellError::TerminalMode),
    ;

    /// Block until one byte of input is available and return it.
    fn read_byte(&mut self) -> (r: Result<u8, RellError>)
        ensures
            final(self).mode() == old(self).mode(),
            final(self).saved() == old(self).saved(),
            final(self).out() == old(self).out(),
            r is Ok ==> final(self).input_left() < old(self).input_left(),
            r is Err ==> r == Err::<u8, RellError>(RellError::IoRead),
    ;

    /// Write `s` to the terminal.
    fn write_text(&mut self, s: &str) -> (r: Result<(), RellError>)
        ensures
            final(self).mode() == old(self).mode(),
            final(self).saved() == old(self).saved(),
            final(self).input_left() == old(self).input_left(),
            r is Ok ==> final(self).out() == old(self).out() + s@,
            r is Err ==> r == Err::<(), RellError>(RellError::IoFlush),
    ;

    /// Push buffered output out to the device.
    fn flush_out(&mut self) -> (r: Result<(), RellError>)
        ensures
            final(self).mode() == old(self).mode(),
            final(self).saved() == old(self).saved(),
            final(self).out() == old(self).out(),
            final(self).input_left() == old(self).input_left(),
            r is Err ==> r == Err::<(), RellError>(RellError::IoFlush),
    ;
}

#[verifier::external_type_specification]
#[verifier::external_body]
pub struct ExTermios(termios::Termios);

/// The process's own terminal: standard input and standard output, with the
/// mode switched on file descriptor 0 through the `termios` crate.
pub struct StdTerminal {
    prior: Option<termios::Termios>,
    mode_g: Ghost<int>,
    saved_g: Ghost<int>,
    out_g: Ghost<Seq<char>>,
    in_g: Ghost<nat>,
}

impl StdTerminal {
    /// A handle on the process's terminal; nothing is saved yet, so the
    /// remembered mode starts out as the current one.
    pub fn new() -> (r: StdTerminal)
        ensures
            r.saved() == r.mode(),
            r.out() == Seq::<char>::empty(),
    {
        let ghost m: int = arbitrary();
        StdTerminal {
            prior: None,
            mode_g: Ghost(m),
            saved_g: Ghost(m),
            out_g: Ghost(Seq::empty()),
            in_g: Ghost(arbitrary()),
        }
    }
}

/// Relies on `termios::Termios::from_fd` and `termios::tcsetattr`: the prior
/// attributes of fd 0 are read and kept, and raw mode is entered by clearing
/// ICANON and ECHO; on failure nothing is applied.
#[verifier::external_body]
fn enter_raw_sys(t: &mut StdTerminal) -> (r: Result<(), RellError>)
    ensures
        final(t).out_g@ == old(t).out_g@,
        final(t).in_g@ == old(t).in_g@,
        r is Ok ==> final(t).saved_g@ == old(t).mode_g@,
        r is Err ==> final(t).mode_g@ == old(t).mode_g@ && final(t).saved_g@ == old(t).saved_g@,
        r is Err ==> (r matches Err(e) && e == RellError::TerminalMode),
{
    let prior = match termios::Termios::from_fd(0) {
        Ok(p) => p,
        Err(_) => return Err(RellError::TerminalMode),
    };
    let mut raw = prior;
    raw.c_lflag &= !(termios::ICANON | termios::ECHO);
    if termios::tcsetattr(0, termios::TCSANOW, &raw).is_err() {
        return Err(RellError::TerminalMode);
    }
    t.prior = Some(prior);
    Ok(())
}

/// Relies on `termios::tcsetattr`: the attributes kept by `enter_raw_sys` are
/// applied back to fd 0.
#[verifier::external_body]
fn restore_mode_sys(t: &mut StdTerminal) -> (r: Result<(), RellError>)
    ensures
        final(t).out_g@ == old(t).out_g@,
        final(t).saved_g@ == old(t).saved_g@,
        final(t).in_g@ == old(t).in_g@,
        r is Ok ==> final(t).mode_g@ == old(t).saved_g@,
        r is Err ==> (r matches Err(e) && e == RellError::TerminalMode),
{
    match &t.prior {
        Some(p) => match termios::tcsetattr(0, termios::TCSANOW, p) {
            Ok(_) => Ok(()),
            Err(_) => Err(RellError::TerminalMode),
        },
        None => Ok(()),
    }
}

/// Relies on `std::io::Read::read_exact` on standard input: blocks until one
/// byte arrives and returns it. Standard input is modeled as a finite stream:
/// each delivered byte consumes it, and its end is a read failure.
#[verifier::external_body]
fn read_byte_sys(t: &mut StdTerminal) -> (r: Result<u8, RellError>)
    ensures
        final(t).mode_g@ == old(t).mode_g@,
        final(t).saved_g@ == old(t).saved_g@,
        final(t).out_g@ == old(t).out_g@,
        r is Ok ==> final(t).in_g@ < old(t).in_g@,
        r is Err ==> (r matches Err(e) && e == RellError::IoRead),
{
    let mut buf = [0u8; 1];
    match std::io::Read::read_exact(&mut std::io::stdin(), &mut buf) {
        Ok(_) => Ok(buf[0]),
        Err(_) => Err(RellError::IoRead),
    }
}

/// Relies on `std::io::Write::write_all` on standard output: on success the
/// whole text was written.
#[verifier::external_body]
fn write_text_sys(t: &mut StdTerminal, s: &str) -> (r: Result<(), RellError>)
    ensures
        final(t).mode_g@ == old(t).mode_g@,
        final(t).saved_g@ == old(t).saved_g@,
        final(t).in_g@ == old(t).in_g@,
        r is Ok ==> final(t).out_g@ == old(t).out_g@ + s@,
        r is Err ==> (r matches Err(e) && e == RellError::IoFlush),
{
    match std::io::Write::write_all(&mut std::io::stdout(), s.as_bytes()) {
        Ok(_) => Ok(()),
        Err(_) => Err(RellError::IoFlush),
    }
}

/// Relies on `std::io::Write::flush` on standard output.
#[verifier::external_body]
fn flush_out_sys(t: &mut StdTerminal) -> (r: Result<(), RellError>)
    ensures
        final(t).mode_g@ == old(t).mode_g@,
        final(t).saved_g@ == old(t).saved_g@,
        final(t).out_g@ == old(t).out_g@,
        final(t).in_g@ == old(t).in_g@,
        r is Err ==> (r matches Err(e) && e == RellError::IoFlush),
{
    match std::io::Write::flush(&mut std::io::stdout()) {
        Ok(_) => Ok(()),
        Err(_) => Err(RellError::IoFlush),
    }
}

impl Terminal for StdTerminal {
    closed spec fn mode(&self) -> int {
        self.mode_g@
    }

    closed spec fn saved(&self) -> int {
        self.saved_g@
    }

    closed spec fn out(&self) -> Seq<char> {
        self.out_g@
    }

    closed spec fn input_left(&self) -> nat {
        self.in_g@
    }

    fn enter_raw(&mut self) -> (r: Result<(), RellError>) {
        enter_raw_sys(self)
    }

    fn restore_mode(&mut self) -> (r: Result<(), RellError>) {
        restore_mode_sys(self)
    }

    fn read_byte(&mut self) -> (r: Result<u8, RellError>) {
        read_byte_sys(self)
    }

    fn write_text(&mut self, s: &str) -> (r: Result<(), RellError>) {
        write_text_sys(self, s)
    }

    fn flush_out(&mut self) -> (r: Result<(), RellError>) {
        flush_out_sys(self)
    }
}

} // verus!
