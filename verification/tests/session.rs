use rell::color::Color;
use rell::error::RellError;
use rell::rell::{Dispatch, Handler, Rell};
use rell::terminal::Terminal;
use rell::text::{str_eq, token_bounds};

/// A scripted terminal: hands out the given bytes one at a time, records what
/// is written, and tracks the raw-mode lifecycle.
struct MockTerm {
    input: Vec<u8>,
    pos: usize,
    out: String,
    raw: bool,
    saved_raw: bool,
    enters: usize,
    restores: usize,
    fail_enter: bool,
    write_calls: usize,
    write_fail_after: usize,
}

fn mock(input: &str) -> MockTerm {
    MockTerm {
        input: input.as_bytes().to_vec(),
        pos: 0,
        out: String::new(),
        raw: false,
        saved_raw: false,
        enters: 0,
        restores: 0,
        fail_enter: false,
        write_calls: 0,
        write_fail_after: usize::MAX,
    }
}

impl Terminal for MockTerm {
    fn enter_raw(&mut self) -> Result<(), RellError> {
        if self.fail_enter {
            return Err(RellError::TerminalMode);
        }
        self.saved_raw = self.raw;
        self.raw = true;
        self.enters += 1;
        Ok(())
    }

    fn restore_mode(&mut self) -> Result<(), RellError> {
        self.raw = self.saved_raw;
        self.restores += 1;
        Ok(())
    }

    fn read_byte(&mut self) -> Result<u8, RellError> {
        if self.pos < self.input.len() {
            let b = self.input[self.pos];
            self.pos += 1;
            Ok(b)
        } else {
            Err(RellError::IoRead)
        }
    }

    fn write_text(&mut self, s: &str) -> Result<(), RellError> {
        if self.write_calls >= self.write_fail_after {
            return Err(RellError::IoFlush);
        }
        self.write_calls += 1;
        self.out.push_str(s);
        Ok(())
    }

    fn flush_out(&mut self) -> Result<(), RellError> {
        Ok(())
    }
}

/// Test handlers: one marks the prompt per invocation, one copies the full
/// line into the prompt, one stops the loop, one fails.
#[derive(Clone)]
enum Cmd {
    Mark,
    Echo,
    Quit,
    Fail,
}

impl Handler for Cmd {
    fn on_command(&self, r: &mut Rell<Cmd>) -> Result<(), RellError> {
        match self {
            Cmd::Mark => {
                r.prompt.push('#');
                Ok(())
            }
            Cmd::Echo => {
                r.prompt = r.line.clone();
                Ok(())
            }
            Cmd::Quit => {
                Rell::def_exit(r);
                Ok(())
            }
            Cmd::Fail => Err(RellError::Handler(String::from("boom"))),
        }
    }
}

#[test]
fn it_works() {
    assert_eq!(2 + 2, 4);
}

#[test]
fn token_bounds_splits_on_first_whitespace() {
    assert_eq!(token_bounds("  foo bar"), (2, 5));
    assert_eq!(token_bounds("help"), (0, 4));
    assert_eq!(token_bounds("   "), (3, 3));
    assert_eq!(token_bounds(""), (0, 0));
    assert_eq!(token_bounds("a\tb"), (0, 1));
}

#[test]
fn str_eq_compares_characters() {
    assert!(str_eq("help", "help"));
    assert!(!str_eq("help", "held"));
    assert!(!str_eq("help", "hel"));
    assert!(str_eq("", ""));
}

#[test]
fn register_twice_keeps_most_recent() {
    let mut r: Rell<Cmd> = Rell::new(">>");
    r.add_keyword(String::from("help"), Color::Green, Cmd::Mark, String::from("first"));
    r.add_keyword(String::from("help"), Color::Yellow, Cmd::Quit, String::from("second"));
    assert_eq!(r.keywords.len(), 1);
    let kw = r.lookup("help").expect("registered");
    assert_eq!(kw.color, Color::Yellow);
    assert_eq!(kw.desc, "second");
}

#[test]
fn render_plan_uses_registry_color() {
    let mut r: Rell<Cmd> = Rell::new(">>");
    r.add_keyword(String::from("help"), Color::Green, Cmd::Mark, String::from("d"));
    r.line = String::from("help me");
    r.curpos = 7;
    let plan = r.render_plan();
    assert_eq!((plan.tok_a, plan.tok_b), (0, 4));
    assert_eq!(plan.color, Color::Green);
    r.line = String::from("bogus me");
    r.curpos = 8;
    let plan_unregistered = r.render_plan();
    assert_eq!(plan_unregistered.color, Color::Red);
}

#[test]
fn dispatch_invokes_matching_handler_once_with_full_line() {
    let mut r: Rell<Cmd> = Rell::new(">>");
    r.add_keyword(String::from("echo"), Color::Blue, Cmd::Echo, String::from("d"));
    r.add_keyword(String::from("quit"), Color::Yellow, Cmd::Quit, String::from("d"));
    let mut t = mock("echo a b\nquit\n");
    let res = r.input(&mut t);
    assert_eq!(res, Ok(()));
    // the echo handler observed the full untrimmed line, exactly once
    assert_eq!(r.prompt, "echo a b");
    assert!(!r.run);
    assert_eq!(t.enters, 1);
    assert_eq!(t.restores, 1);
    assert!(!t.raw);
}

#[test]
fn registered_line_invokes_handler_and_clears_line() {
    let mut r: Rell<Cmd> = Rell::new(">>");
    r.add_keyword(String::from("help"), Color::Green, Cmd::Mark, String::from("desc"));
    let mut t = mock("help\n");
    let res = r.input(&mut t);
    // the script ends after the dispatch, so the next read fails
    assert_eq!(res, Err(RellError::IoRead));
    // invoked exactly once: exactly one mark added to the prompt
    assert_eq!(r.prompt, ">>#");
    // line buffer cleared and prompt reprinted afterwards
    assert!(r.line.is_empty());
    assert!(t.out.ends_with("\n>># "));
    // raw mode restored on this exit path too
    assert_eq!(t.restores, 1);
    assert!(!t.raw);
}

#[test]
fn unrecognized_command_reports_and_keeps_running() {
    let mut r: Rell<Cmd> = Rell::new(">>");
    let mut t = mock("foo\n");
    let res = r.input(&mut t);
    assert_eq!(res, Err(RellError::IoRead));
    assert!(t.out.contains("unrecognized command: foo"));
    assert!(r.run);
    assert_eq!(t.restores, 1);
    assert!(!t.raw);
}

#[test]
fn exit_handler_stops_loop_and_restores_mode() {
    let mut r: Rell<Cmd> = Rell::new(">>");
    r.add_keyword(String::from("exit"), Color::Yellow, Cmd::Quit, String::from("d"));
    let mut t = mock("exit\n");
    let res = r.input(&mut t);
    assert_eq!(res, Ok(()));
    assert!(!r.run);
    assert_eq!(t.enters, 1);
    assert_eq!(t.restores, 1);
    assert!(!t.raw);
}

#[test]
fn handler_error_propagates_and_restores_mode() {
    let mut r: Rell<Cmd> = Rell::new(">>");
    r.add_keyword(String::from("error"), Color::Green, Cmd::Fail, String::from("d"));
    let mut t = mock("error\n");
    let res = r.input(&mut t);
    assert_eq!(res, Err(RellError::Handler(String::from("boom"))));
    assert_eq!(t.restores, 1);
    assert!(!t.raw);
}

#[test]
fn blank_line_is_a_noop() {
    let mut r: Rell<Cmd> = Rell::new(">>");
    r.add_keyword(String::from("help"), Color::Green, Cmd::Mark, String::from("d"));
    let mut t = mock("   \n");
    let res = r.input(&mut t);
    assert_eq!(res, Err(RellError::IoRead));
    assert_eq!(r.prompt, ">>");
    assert!(!t.out.contains("unrecognized"));
    assert!(r.run);
    assert_eq!(t.restores, 1);
}

#[test]
fn typed_line_accumulates_and_is_echoed() {
    let mut r: Rell<Cmd> = Rell::new(">>");
    r.add_keyword(String::from("load"), Color::Blue, Cmd::Echo, String::from("d"));
    let mut t = mock("load x");
    let res = r.input(&mut t);
    assert_eq!(res, Err(RellError::IoRead));
    // no newline arrived, so nothing was dispatched and the line still holds
    // every typed character
    assert_eq!(r.line, "load x");
    assert_eq!(r.curpos, 6);
    // the redraw wrote the typed token
    assert!(t.out.contains("load"));
    assert_eq!(t.restores, 1);
}

#[test]
fn enter_raw_failure_aborts_without_restore() {
    let mut r: Rell<Cmd> = Rell::new(">>");
    let mut t = mock("help\n");
    t.fail_enter = true;
    let res = r.input(&mut t);
    assert_eq!(res, Err(RellError::TerminalMode));
    assert_eq!(t.enters, 0);
    assert!(!t.raw);
}

#[test]
fn write_failure_before_raw_mode_is_flush_error() {
    let mut r: Rell<Cmd> = Rell::new(">>");
    let mut t = mock("help\n");
    t.write_fail_after = 0;
    let res = r.input(&mut t);
    assert_eq!(res, Err(RellError::IoFlush));
    assert_eq!(t.enters, 0);
    assert!(!t.raw);
}

#[test]
fn render_failure_restores_mode() {
    let mut r: Rell<Cmd> = Rell::new(">>");
    let mut t = mock("hi");
    // let the initial prompt through, then fail during the first redraw
    t.write_fail_after = 4;
    let res = r.input(&mut t);
    assert_eq!(res, Err(RellError::IoFlush));
    assert_eq!(t.enters, 1);
    assert_eq!(t.restores, 1);
    assert!(!t.raw);
}

#[test]
fn def_exit_clears_run_flag() {
    let mut r: Rell<Cmd> = Rell::new(">>");
    assert!(r.run);
    Rell::def_exit(&mut r);
    assert!(!r.run);
}

#[test]
fn prompt_change_by_handler_is_reprinted() {
    let mut r: Rell<Cmd> = Rell::new(">>");
    r.add_keyword(String::from("echo"), Color::Green, Cmd::Echo, String::from("d"));
    let mut t = mock("echo\n");
    let res = r.input(&mut t);
    assert_eq!(res, Err(RellError::IoRead));
    assert_eq!(r.prompt, "echo");
    assert!(t.out.ends_with("\necho "));
}

/// A replacement renderer: it keeps the buffer but echoes nothing.
#[derive(Clone)]
struct SilentRenderer;

impl rell::rell::Renderer<Cmd> for SilentRenderer {
    fn render<T: Terminal>(
        &self,
        r: &mut Rell<Cmd>,
        _term: &mut T,
        c: char,
    ) -> Result<(), RellError> {
        r.line.push(c);
        r.curpos += 1;
        Ok(())
    }
}

#[test]
fn custom_renderer_replaces_default() {
    let mut r: Rell<Cmd> = Rell::new(">>");
    r.add_keyword(String::from("exit"), Color::Yellow, Cmd::Quit, String::from("d"));
    let mut t = mock("exit\n");
    let res = r.input_with(&mut t, &SilentRenderer);
    assert_eq!(res, Ok(()));
    assert!(!r.run);
    // nothing echoed the typed characters, only the prompt was written
    assert!(!t.out.contains("exit"));
    assert_eq!(t.restores, 1);
}

#[test]
fn sessions_are_independent() {
    let mut a: Rell<Cmd> = Rell::new("a>");
    let mut b: Rell<Cmd> = Rell::new("b>");
    a.add_keyword(String::from("exit"), Color::Yellow, Cmd::Quit, String::from("d"));
    b.add_keyword(String::from("help"), Color::Green, Cmd::Mark, String::from("d"));
    let mut ta = mock("exit\n");
    let mut tb = mock("help\n");
    assert_eq!(a.input(&mut ta), Ok(()));
    let _ = b.input(&mut tb);
    assert!(!a.run);
    assert!(b.run);
    assert_eq!(b.prompt, "b>#");
    assert!(a.lookup("help").is_none());
    assert!(b.lookup("exit").is_none());
}

#[test]
fn resolve_picks_exactly_the_matching_entry() {
    let mut r: Rell<Cmd> = Rell::new(">>");
    r.add_keyword(String::from("load"), Color::Blue, Cmd::Echo, String::from("d"));
    r.add_keyword(String::from("exit"), Color::Yellow, Cmd::Quit, String::from("d"));
    r.line = String::from("exit now");
    r.curpos = 8;
    assert_eq!(r.resolve(), Dispatch::Invoke(1));
    r.line = String::from("   ");
    r.curpos = 3;
    assert_eq!(r.resolve(), Dispatch::Noop);
    r.line = String::from("nope");
    r.curpos = 4;
    assert_eq!(r.resolve(), Dispatch::Unrecognized);
}

#[test]
fn help_text_lists_keywords_with_descriptions() {
    let mut r: Rell<Cmd> = Rell::new(">>");
    assert_eq!(r.help_text(), "");
    r.add_keyword(String::from("load"), Color::Blue, Cmd::Echo, String::from("Load a program"));
    r.add_keyword(String::from("exit"), Color::Yellow, Cmd::Quit, String::from("Leave"));
    assert_eq!(r.help_text(), "\nload\t-- Load a program\nexit\t-- Leave");
}

#[test]
fn unimpl_text_names_the_first_token() {
    let mut r: Rell<Cmd> = Rell::new(">>");
    r.line = String::from("  run now");
    r.curpos = 9;
    assert_eq!(r.unimpl_text(), "run is not implemented yet!");
}
