//! The terminal front end's state and how it answers keys: the prompt being
//! typed, the history shown, and the status line.
use vstd::prelude::*;

use crate::text::{chars_of, concat2, concat3, decimal, owned, push_char, string_of_range, trim, trim_str, usize_string, str_eq};

verus! {

/// A key the terminal reports.
pub enum KeyCode {
    Char(char),
    Esc,
    Enter,
    Backspace,
    Other,
}

/// A key press: the key and whether Control was held.
pub struct KeyInput {
    pub code: KeyCode,
    pub control: bool,
}

/// What a key press asks of the caller: nothing, or to run a prompt.
pub enum KeyOutcome {
    Nothing,
    Run(String),
}

pub struct App {
    pub input: String,
    pub history: Vec<String>,
    pub status: String,
    pub should_quit: bool,
}

/// The line the history starts with.
pub open spec fn greeting() -> Seq<char> {
    "Press Enter to run the prompt. Esc or Ctrl-C exits."@
}

impl App {
    /// An empty prompt, the greeting in the history, status `ready`.
    pub fn new() -> (a: Self)
        ensures
            a.input@.len() == 0,
            a.history@.len() == 1,
            a.history@[0]@ == greeting(),
            a.status@ == "ready"@,
            !a.should_quit,
    {
        let mut history: Vec<String> = Vec::new();
        history.push(owned("Press Enter to run the prompt. Esc or Ctrl-C exits."));
        let input = String::new();
        App { input, history, status: owned("ready"), should_quit: false }
    }

    /// Answers a key: Ctrl-C and Esc quit, Enter submits the prompt,
    /// Backspace drops the last character, any other character without
    /// Control is typed.
    pub fn handle_key(&mut self, key: KeyInput) -> (r: KeyOutcome)
        ensures
            match key.code {
                KeyCode::Char(c) => if key.control {
                    &&& c == 'c' ==> final(self).should_quit
                    &&& c != 'c' ==> final(self).should_quit == old(self).should_quit
                    &&& final(self).input == old(self).input
                    &&& final(self).history == old(self).history
                    &&& final(self).status == old(self).status
                    &&& r is Nothing
                } else {
                    &&& final(self).input@ == old(self).input@.push(c)
                    &&& final(self).should_quit == old(self).should_quit
                    &&& final(self).history == old(self).history
                    &&& final(self).status == old(self).status
                    &&& r is Nothing
                },
                KeyCode::Esc => {
                    &&& final(self).should_quit
                    &&& final(self).input == old(self).input
                    &&& final(self).history == old(self).history
                    &&& final(self).status == old(self).status
                    &&& r is Nothing
                },
                KeyCode::Enter => submitted(*old(self), *final(self), r),
                KeyCode::Backspace => {
                    &&& final(self).input@ == if old(self).input@.len() == 0 {
                        old(self).input@
                    } else {
                        old(self).input@.drop_last()
                    }
                    &&& final(self).should_quit == old(self).should_quit
                    &&& final(self).history == old(self).history
                    &&& final(self).status == old(self).status
                    &&& r is Nothing
                },
                KeyCode::Other => *final(self) == *old(self) && r is Nothing,
            },
    {
        match key.code {
            KeyCode::Char(c) => {
                if key.control {
                    if c == 'c' {
                        self.should_quit = true;
                    }
                } else {
                    push_char(&mut self.input, c);
                }
                KeyOutcome::Nothing
            },
            KeyCode::Esc => {
                self.should_quit = true;
                KeyOutcome::Nothing
            },
            KeyCode::Enter => self.submit(),
            KeyCode::Backspace => {
                let chars = chars_of(self.input.as_str());
                if chars.len() > 0 {
                    self.input = string_of_range(&chars, 0, chars.len() - 1);
                }
                KeyOutcome::Nothing
            },
            KeyCode::Other => KeyOutcome::Nothing,
        }
    }

    /// Takes the typed prompt: a blank one sets the status to `empty prompt`;
    /// another is added to the history after `> ` and handed back to run.
    /// The prompt line is cleared either way.
    pub fn submit(&mut self) -> (r: KeyOutcome)
        ensures
            submitted(*old(self), *final(self), r),
    {
        let prompt = trim_str(self.input.as_str());
        self.input = String::new();
        proof {
            reveal_strlit("");
            assert(prompt@.len() == 0 ==> prompt@ =~= ""@);
        }
        if str_eq(prompt.as_str(), "") {
            self.status = owned("empty prompt");
            return KeyOutcome::Nothing;
        }
        let ghost before = self.history@;
        self.history.push(concat2("> ", prompt.as_str()));
        assert(self.history@.drop_last() =~= before);
        KeyOutcome::Run(prompt)
    }

    /// Records how a run of the submitted prompt ended: its final message and
    /// the provider's name with the number of rounds, or `! ` and the error
    /// with the status `error`.
    pub fn record_result(&mut self, provider_name: &str, result: Result<(String, usize), String>)
        ensures
            final(self).input == old(self).input,
            final(self).should_quit == old(self).should_quit,
            match result {
                Ok((message, iterations)) => {
                    &&& final(self).history@ == old(self).history@.push(message)
                    &&& final(self).status@ == provider_name@ + " | iterations: "@ + decimal(iterations as nat)
                },
                Err(e) => {
                    &&& final(self).history@.len() == old(self).history@.len() + 1
                    &&& final(self).history@.drop_last() == old(self).history@
                    &&& final(self).history@.last()@ == "! "@ + e@
                    &&& final(self).status@ == "error"@
                },
            },
    {
        match result {
            Ok((message, iterations)) => {
                self.history.push(message);
                let n = usize_string(iterations);
                self.status = concat3(provider_name, " | iterations: ", n.as_str());
            },
            Err(e) => {
                let ghost before = self.history@;
                self.history.push(concat2("! ", e.as_str()));
                assert(self.history@.drop_last() =~= before);
                self.status = owned("error");
            },
        }
    }

    /// The lines the history pane shows: the history, or a placeholder when
    /// it is empty.
    pub fn shown_lines(&self) -> (r: Vec<String>)
        ensures
            self.history@.len() == 0 ==> r@.len() == 1 && r@[0]@ == "No messages yet"@,
            self.history@.len() > 0 ==> r@ == self.history@,
    {
        if self.history.len() == 0 {
            let mut r: Vec<String> = Vec::new();
            r.push(owned("No messages yet"));
            r
        } else {
            let mut r: Vec<String> = Vec::new();
            let mut i: usize = 0;
            while i < self.history.len()
                invariant
                    i <= self.history@.len(),
                    r@ == self.history@.take(i as int),
                decreases self.history.len() - i,
            {
                r.push(self.history[i].clone());
                assert(self.history@.take(i + 1) =~= self.history@.take(i as int).push(self.history@[i as int]));
                i += 1;
            }
            assert(self.history@.take(self.history@.len() as int) =~= self.history@);
            r
        }
    }

    /// The history pane's title.
    pub fn title(&self) -> (r: String)
        ensures
            r@ == "Rovdex | "@ + self.status@,
    {
        concat2("Rovdex | ", self.status.as_str())
    }

    /// The cursor's column in a prompt box whose left edge is at `x`: after
    /// the border and the typed characters, saturating at the screen's limit.
    pub fn cursor_column(&self, x: u16) -> (r: u16)
        ensures
            r == if x + 1 + self.input@.len() > u16::MAX {
                u16::MAX as int
            } else {
                x + 1 + self.input@.len()
            },
    {
        let n = chars_of(self.input.as_str()).len();
        if n >= 65535 {
            return u16::MAX;
        }
        let offset: u16 = 1 + n as u16;
        x.saturating_add(offset)
    }
}

/// What `submit` does: the prompt line is cleared; a blank prompt only sets
/// the status; another is added to the history after `> ` and handed back.
pub open spec fn submitted(before: App, after: App, r: KeyOutcome) -> bool {
    let prompt = trim(before.input@);
    &&& after.input@.len() == 0
    &&& after.should_quit == before.should_quit
    &&& if prompt.len() == 0 {
        &&& after.status@ == "empty prompt"@
        &&& after.history == before.history
        &&& r is Nothing
    } else {
        &&& after.status == before.status
        &&& after.history@.len() == before.history@.len() + 1
        &&& after.history@.drop_last() == before.history@
        &&& after.history@.last()@ == "> "@ + prompt
        &&& r matches KeyOutcome::Run(p) && p@ == prompt
    }
}

} // verus!
