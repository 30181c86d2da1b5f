//! Commands, what they ask of the world around the editor, and what comes back.

use crate::editor::Editor;
use crate::groq;
use crate::language::Language;
use crate::lines;
use crate::number;
use crate::program;
use crate::run_laws;
use crate::state;
use crate::state::{
    EditorState, InputMode, AI_STATUS_SECONDS, MESSAGE_STATUS_SECONDS,
};
use crate::text;
use vstd::prelude::*;

verus! {

/// What the editor asks for, after a key or an outcome.
pub enum Effect {
    /// Nothing: wait for the next key.
    Continue,
    /// Leave the editor.
    Quit,
    /// Write `text` to the file; `quit` says whether to leave once that is done.
    Save { text: String, quit: bool },
    /// Make the file executable.
    MakeExecutable,
    /// Run a shell command.
    RunShell { command: String },
    /// Store the key of the assistant.
    SaveGroqKey { key: String },
    /// Put a request to the assistant.
    AskGroq { key: String, request: String },
}

/// What the editor asks for, as text.
pub enum Step {
    Continue,
    Quit,
    Save { text: Seq<char>, quit: bool },
    MakeExecutable,
    RunShell { command: Seq<char> },
    SaveGroqKey { key: Seq<char> },
    AskGroq { key: Seq<char>, request: Seq<char> },
}

impl View for Effect {
    type V = Step;

    open spec fn view(&self) -> Step {
        match *self {
            Effect::Continue => Step::Continue,
            Effect::Quit => Step::Quit,
            Effect::Save { text, quit } => Step::Save { text: text@, quit },
            Effect::MakeExecutable => Step::MakeExecutable,
            Effect::RunShell { command } => Step::RunShell { command: command@ },
            Effect::SaveGroqKey { key } => Step::SaveGroqKey { key: key@ },
            Effect::AskGroq { key, request } => Step::AskGroq { key: key@, request: request@ },
        }
    }
}

/// How making the file executable went.
#[derive(Clone, Copy, PartialEq, Eq, Debug, Structural)]
pub enum ChmodOutcome {
    Applied,
    WriteFailed,
    NoFile,
    Unsupported,
}

/// How a program that the editor started went.
pub enum ProgramOutcome {
    NotStarted { error: String },
    Finished { success: bool, stdout: Vec<u8>, stderr: Vec<u8> },
}

/// How what the editor asked for went.
pub enum Outcome {
    Saved { ok: bool, quit: bool },
    Chmod { change: ChmodOutcome },
    Shell { program: ProgramOutcome },
    GroqKeySaved { key: String, ok: bool },
    Groq { program: ProgramOutcome },
}

/// A command as it is typed, without the colon before it and white space around it.
pub open spec fn command_word(command: Seq<char>) -> Seq<char> {
    let t = text::trimmed(command);
    if t.len() > 0 && t[0] == ':' {
        text::trimmed(t.drop_first())
    } else {
        text::trimmed(t)
    }
}

/// The message that tells what a shell command printed.
pub open spec fn shell_note(stdout: Seq<char>, stderr: Seq<char>) -> Seq<char> {
    let out = text::trimmed(stdout);
    let err = text::trimmed(stderr);
    if out.len() == 0 && err.len() == 0 {
        "[shell command produced no output]"@
    } else if err.len() == 0 {
        out
    } else if out.len() == 0 {
        err
    } else {
        out + " | "@ + err
    }
}

/// A request, or the one that is made if none is given.
pub open spec fn request_or_default(request: Seq<char>) -> Seq<char> {
    if text::trimmed(request).len() == 0 {
        "Review this file and suggest fixes."@
    } else {
        request
    }
}

/// The permissions of a file with execution allowed to everyone.
pub open spec fn with_execution(mode: u32) -> u32 {
    mode | 0o111
}

impl EditorState {
    /// The command to write the file.
    pub open spec fn save_step(self, quit: bool) -> Step {
        Step::Save { text: lines::joined(self.doc.lines), quit }
    }

    /// The editor after a command for the line `n`.
    pub open spec fn jumped(self, n: int, now: u64) -> EditorState {
        if 0 < n <= self.doc.lines.len() {
            self.with_doc(self.doc.at(n - 1, 0)).fully_redrawn().noting(
                "Jumped to line "@ + number::decimal(n as nat),
                now,
            )
        } else {
            self.noting(
                "Line "@ + number::decimal(n as nat) + " is out of bounds (max: "@
                    + number::decimal(self.doc.lines.len()) + ")"@,
                now,
            )
        }
    }

    /// The editor after a shell command was given, and what it asks for.
    pub open spec fn shell_asked(self, command: Seq<char>, now: u64) -> (EditorState, Step) {
        if text::trimmed(command).len() == 0 {
            (self.noting("Usage: :!<shell command>"@, now), Step::Continue)
        } else {
            (self, Step::RunShell { command })
        }
    }

    /// The editor after a request to the assistant was given, and what it asks for:
    /// the key, as long as there is none.
    pub open spec fn groq_asked(self, request: Seq<char>, now: u64) -> (EditorState, Step) {
        let request = request_or_default(request);
        match self.groq_api_key {
            Some(key) => (self, Step::AskGroq { key, request }),
            None => (
                EditorState {
                    pending_ai_request: Some(request),
                    mode: InputMode::AwaitGroqKey,
                    groq_key_buffer: Seq::empty(),
                    ..self
                }.noting("Enter Groq API key"@, now).redrawn(),
                Step::Continue,
            ),
        }
    }

    /// The editor after a command, and what it asks for.
    pub open spec fn commanded(self, command: Seq<char>, now: u64) -> (EditorState, Step) {
        let raw = command_word(command);
        if raw.len() == 0 {
            (self.noting("Empty command"@, now), Step::Continue)
        } else if number::number_in(raw) is Some {
            (self.jumped(number::number_in(raw)->0 as int, now), Step::Continue)
        } else if raw == "w"@ {
            (self, self.save_step(false))
        } else if raw == "q"@ {
            if self.doc.dirty {
                (self.noting("Unsaved changes. Use :q! to quit anyway."@, now), Step::Continue)
            } else {
                (self, Step::Quit)
            }
        } else if raw == "q!"@ {
            (self, Step::Quit)
        } else if raw == "wq"@ || raw == "x"@ || raw == "wq!"@ {
            (self, self.save_step(true))
        } else if raw == "chmod"@ {
            if self.doc.language != Language::Shell {
                (self.noting("Error: :chmod only works for .sh files"@, now), Step::Continue)
            } else {
                (self, Step::MakeExecutable)
            }
        } else if text::has_prefix(raw, "!"@) {
            self.shell_asked(text::trimmed(raw.skip("!"@.len() as int)), now)
        } else if text::has_prefix(raw, "ai"@) {
            self.groq_asked(text::trimmed(raw.skip("ai"@.len() as int)), now)
        } else {
            (self.noting("Unknown command: :"@ + raw, now), Step::Continue)
        }
    }

    /// The editor after the file was written, or could not be, and what it asks for.
    pub open spec fn saved(self, ok: bool, quit: bool, now: u64) -> (EditorState, Step) {
        if ok {
            (
                self.with_doc(self.doc.saved()).noting(
                    "SAVED: "@ + self.filename,
                    now,
                ),
                if quit {
                    Step::Quit
                } else {
                    Step::Continue
                },
            )
        } else {
            (self.noting("Save failed: "@ + self.filename, now), Step::Continue)
        }
    }

    /// The editor after the file was made executable, or could not be.
    pub open spec fn made_executable(self, outcome: ChmodOutcome, now: u64) -> EditorState {
        self.noting(
            match outcome {
                ChmodOutcome::Applied => "Permission worked: +x applied"@,
                ChmodOutcome::WriteFailed => "Permission failed: Failed to write permissions"@,
                ChmodOutcome::NoFile => "Permission failed: Save the file first!"@,
                ChmodOutcome::Unsupported => "Permission failed: chmod not supported on this OS"@,
            },
            now,
        )
    }

    /// The editor after a shell command ran, or could not be started.
    pub open spec fn shell_ran(self, outcome: ProgramOutcome, now: u64) -> EditorState {
        self.noting(
            match outcome {
                ProgramOutcome::NotStarted { error } => "Shell command failed: "@ + error@,
                ProgramOutcome::Finished { stdout, stderr, .. } => shell_note(
                    program::printed_text(stdout@),
                    program::printed_text(stderr@),
                ),
            },
            now,
        )
    }

    /// The editor after the key was stored, or could not be, and what it asks for:
    /// the reply to the request that waited for the key.
    pub open spec fn key_saved(self, key: Seq<char>, ok: bool, now: u64) -> (EditorState, Step) {
        if !ok {
            (self.noting("Failed to save Groq API key"@, now).redrawn(), Step::Continue)
        } else {
            let s = EditorState {
                groq_api_key: Some(key),
                mode: InputMode::Insert,
                groq_key_buffer: Seq::empty(),
                pending_ai_request: None,
                ..self
            }.noting("Groq API key saved"@, now).redrawn();
            match self.pending_ai_request {
                Some(request) => s.groq_asked(request, now),
                None => (s, Step::Continue),
            }
        }
    }

    /// The editor after the assistant replied, or failed to.
    pub open spec fn replied(self, reply: Result<Seq<char>, Seq<char>>, now: u64) -> EditorState {
        match reply {
            Ok(t) => EditorState {
                ai_output: Some(lines::split(t)),
                ai_scroll: 0,
                ..self
            }.fully_redrawn(),
            Err(e) => self.with_status("Groq error: "@ + e, AI_STATUS_SECONDS, now),
        }
    }

    /// The editor after an outcome of what it asked for, and what it asks for next.
    pub open spec fn resumed(self, outcome: Outcome, now: u64) -> (EditorState, Step) {
        match outcome {
            Outcome::Saved { ok, quit } => self.saved(ok, quit, now),
            Outcome::Chmod { change } => (self.made_executable(change, now), Step::Continue),
            Outcome::Shell { program } => (self.shell_ran(program, now), Step::Continue),
            Outcome::GroqKeySaved { key, ok } => self.key_saved(key@, ok, now),
            Outcome::Groq { program } => (
                self.replied(program_reply(program), now),
                Step::Continue,
            ),
        }
    }
}

/// What a request to the assistant comes to, by how curl went.
pub open spec fn program_reply(outcome: ProgramOutcome) -> Result<Seq<char>, Seq<char>> {
    match outcome {
        ProgramOutcome::NotStarted { error } => Err("curl failed to start: "@ + error@),
        ProgramOutcome::Finished { success, stdout, stderr } => groq::reply_of(
            success,
            program::printed_text(stdout@),
            program::printed_text(stderr@),
        ),
    }
}

/// The message that tells what a shell command printed.
pub fn shell_message(stdout: &str, stderr: &str) -> (msg: String)
    ensures
        msg@ == shell_note(stdout@, stderr@),
{
    let out = text::trim(stdout);
    let err = text::trim(stderr);
    if out.is_empty() && err.is_empty() {
        "[shell command produced no output]".to_string()
    } else if err.is_empty() {
        out.to_string()
    } else if out.is_empty() {
        err.to_string()
    } else {
        let mut msg = out.to_string();
        msg.append(" | ");
        msg.append(err);
        msg
    }
}

/// The permissions of a file with execution allowed to everyone.
pub fn executable_mode(mode: u32) -> (r: u32)
    ensures
        r == with_execution(mode),
{
    mode | 0o111
}

impl Editor {
    /// Shows a message for the usual time.
    fn note(&mut self, msg: String, now: u64)
        requires
            state::clock_ok(now),
        ensures
            final(self)@ == old(self)@.noting(msg@, now),
    {
        self.set_temp_status(msg, MESSAGE_STATUS_SECONDS, now);
    }

    /// Asks for the file to be written.
    pub fn save(&self, quit: bool) -> (effect: Effect)
        ensures
            effect@ == self@.save_step(quit),
    {
        Effect::Save { text: self.file_text(), quit }
    }

    /// Carries a command out, as far as the editor can, and says what it asks for.
    pub fn execute_command(&mut self, command: &str, now: u64) -> (effect: Effect)
        requires
            old(self).wf(),
            state::clock_ok(now),
        ensures
            final(self).wf(),
            (final(self)@, effect@) == old(self)@.commanded(command@, now),
    {
        let ghost before = self@;
        let trimmed = text::trim(command);
        proof {
            reveal_strlit(":");
            assert(text::has_prefix(trimmed@, ":"@) <==> trimmed@.len() > 0 && trimmed@[0] == ':')
                by {
                if trimmed@.len() > 0 && trimmed@[0] == ':' {
                    assert(trimmed@.take(1) =~= ":"@);
                } else if trimmed@.len() > 0 {
                    assert(trimmed@.take(1)[0] == trimmed@[0]);
                    assert(":"@[0] == ':');
                }
            }
            assert(trimmed@.len() > 0 ==> trimmed@.skip(1) =~= trimmed@.drop_first());
        }
        let raw = text::trim(
            match text::strip_prefix(trimmed, ":") {
                Some(rest) => rest,
                None => trimmed,
            },
        );
        assert(raw@ == command_word(command@));
        if raw.is_empty() {
            self.note("Empty command".to_string(), now);
            return Effect::Continue;
        }
        if let Some(line_num) = number::parse_number(raw) {
            let count: usize = self.lines.len();
            if line_num > 0 && line_num <= count {
                self.cursor_y = line_num - 1;
                self.cursor_x = 0;
                self.request_full_redraw();
                let mut msg = "Jumped to line ".to_string();
                msg.append(number::number_text(line_num).as_str());
                self.note(msg, now);
            } else {
                let mut msg = "Line ".to_string();
                msg.append(number::number_text(line_num).as_str());
                msg.append(" is out of bounds (max: ");
                msg.append(number::number_text(count).as_str());
                msg.append(")");
                self.note(msg, now);
            }
            return Effect::Continue;
        }
        if text::same_text(raw, "w") {
            return self.save(false);
        }
        if text::same_text(raw, "q") {
            if self.dirty {
                self.note("Unsaved changes. Use :q! to quit anyway.".to_string(), now);
                return Effect::Continue;
            }
            return Effect::Quit;
        }
        if text::same_text(raw, "q!") {
            return Effect::Quit;
        }
        if text::same_text(raw, "wq") || text::same_text(raw, "x") || text::same_text(raw, "wq!") {
            return self.save(true);
        }
        if text::same_text(raw, "chmod") {
            if self.language != Language::Shell {
                self.note("Error: :chmod only works for .sh files".to_string(), now);
                return Effect::Continue;
            }
            return Effect::MakeExecutable;
        }
        if let Some(shell_cmd) = text::strip_prefix(raw, "!") {
            return self.run_shell_command(text::trim(shell_cmd), now);
        }
        if let Some(rest) = text::strip_prefix(raw, "ai") {
            return self.run_ai_command(text::trim(rest).to_string(), now);
        }
        let mut msg = "Unknown command: :".to_string();
        msg.append(raw);
        self.note(msg, now);
        Effect::Continue
    }

    /// Asks for a shell command to be run.
    pub fn run_shell_command(&mut self, shell_cmd: &str, now: u64) -> (effect: Effect)
        requires
            state::clock_ok(now),
        ensures
            (final(self)@, effect@) == old(self)@.shell_asked(shell_cmd@, now),
    {
        if text::trim(shell_cmd).is_empty() {
            self.note("Usage: :!<shell command>".to_string(), now);
            return Effect::Continue;
        }
        Effect::RunShell { command: shell_cmd.to_string() }
    }

    /// Asks for a request to be put to the assistant, or for its key.
    pub fn run_ai_command(&mut self, request: String, now: u64) -> (effect: Effect)
        requires
            state::clock_ok(now),
        ensures
            (final(self)@, effect@) == old(self)@.groq_asked(request@, now),
    {
        let request = if text::trim(request.as_str()).is_empty() {
            "Review this file and suggest fixes.".to_string()
        } else {
            request
        };
        match &self.groq_api_key {
            Some(key) => Effect::AskGroq { key: key.clone(), request },
            None => {
                self.pending_ai_request = Some(request);
                self.mode = InputMode::AwaitGroqKey;
                self.groq_key_buffer = String::new();
                self.note("Enter Groq API key".to_string(), now);
                self.request_redraw();
                Effect::Continue
            },
        }
    }

    /// The arguments with which curl puts a request about the document to the
    /// assistant. `model` names the model to ask, if one is named.
    pub fn call_groq_api(&self, model: Option<String>, api_key: &str, request: &str) -> (args: Vec<
        String,
    >)
        ensures
            lines::contents(args@) == groq::curl_arguments(
                api_key@,
                groq::body_text(
                    groq::chosen_model(text::text_of(model)),
                    lines::joined(self@.doc.lines),
                    request@,
                ),
            ),
    {
        let file = self.file_text();
        let model = match model {
            Some(m) => m,
            None => "llama-3.3-70b-versatile".to_string(),
        };
        let body = groq::request_body(model.as_str(), file.as_str(), request);
        groq::curl_args(api_key, body)
    }

    /// Takes in whether the file was written.
    pub fn finish_save(&mut self, ok: bool, quit: bool, now: u64) -> (effect: Effect)
        requires
            old(self).wf(),
            state::clock_ok(now),
        ensures
            final(self).wf(),
            (final(self)@, effect@) == old(self)@.saved(ok, quit, now),
    {
        if ok {
            self.mark_saved();
            let mut msg = "SAVED: ".to_string();
            msg.append(self.filename.as_str());
            self.note(msg, now);
            if quit {
                Effect::Quit
            } else {
                Effect::Continue
            }
        } else {
            let mut msg = "Save failed: ".to_string();
            msg.append(self.filename.as_str());
            self.note(msg, now);
            Effect::Continue
        }
    }

    /// Takes in whether the file was made executable.
    pub fn finish_chmod(&mut self, outcome: ChmodOutcome, now: u64)
        requires
            state::clock_ok(now),
        ensures
            final(self)@ == old(self)@.made_executable(outcome, now),
    {
        let msg = match outcome {
            ChmodOutcome::Applied => "Permission worked: +x applied",
            ChmodOutcome::WriteFailed => "Permission failed: Failed to write permissions",
            ChmodOutcome::NoFile => "Permission failed: Save the file first!",
            ChmodOutcome::Unsupported => "Permission failed: chmod not supported on this OS",
        };
        self.note(msg.to_string(), now);
    }

    /// Takes in what a shell command printed.
    pub fn finish_shell(&mut self, outcome: ProgramOutcome, now: u64)
        requires
            state::clock_ok(now),
        ensures
            final(self)@ == old(self)@.shell_ran(outcome, now),
    {
        let msg = match &outcome {
            ProgramOutcome::NotStarted { error } => {
                let mut msg = "Shell command failed: ".to_string();
                msg.append(error.as_str());
                msg
            },
            ProgramOutcome::Finished { stdout, stderr, .. } => {
                let out = program::program_text(stdout.as_slice());
                let err = program::program_text(stderr.as_slice());
                shell_message(out.as_str(), err.as_str())
            },
        };
        self.note(msg, now);
    }

    /// Takes in whether the key was stored, and asks what waited for it.
    pub fn finish_groq_key(&mut self, key: String, ok: bool, now: u64) -> (effect: Effect)
        requires
            state::clock_ok(now),
        ensures
            (final(self)@, effect@) == old(self)@.key_saved(key@, ok, now),
    {
        if !ok {
            self.note("Failed to save Groq API key".to_string(), now);
            self.request_redraw();
            return Effect::Continue;
        }
        self.groq_api_key = Some(key);
        self.mode = InputMode::Insert;
        self.groq_key_buffer = String::new();
        self.note("Groq API key saved".to_string(), now);
        self.request_redraw();
        match self.pending_ai_request.take() {
            Some(request) => self.run_ai_command(request, now),
            None => Effect::Continue,
        }
    }

    /// Takes in the reply of the assistant.
    pub fn finish_groq(&mut self, reply: Result<String, String>, now: u64)
        requires
            old(self).wf(),
            state::clock_ok(now),
        ensures
            final(self).wf(),
            final(self)@ == old(self)@.replied(groq::outcome_text(reply), now),
    {
        match reply {
            Ok(t) => {
                self.ai_output = Some(lines::split_lines(t.as_str()));
                self.ai_scroll = 0;
                self.request_full_redraw();
            },
            Err(e) => {
                let mut msg = "Groq error: ".to_string();
                msg.append(e.as_str());
                self.set_temp_status(msg, AI_STATUS_SECONDS, now);
            },
        }
    }

    /// Takes in how what the editor asked for went, and says what it asks for next.
    pub fn resume(&mut self, outcome: Outcome, now: u64) -> (effect: Effect)
        requires
            old(self).wf(),
            state::clock_ok(now),
        ensures
            final(self).wf(),
            old(self)@.doc.cursors_in_lines() ==> final(self)@.doc.cursors_in_lines(),
            (final(self)@, effect@) == old(self)@.resumed(outcome, now),
    {
        proof {
            if self@.doc.cursors_in_lines() {
                run_laws::law_saving_keeps_cursors(self@.doc);
            }
        }
        match outcome {
            Outcome::Saved { ok, quit } => self.finish_save(ok, quit, now),
            Outcome::Chmod { change } => {
                self.finish_chmod(change, now);
                Effect::Continue
            },
            Outcome::Shell { program } => {
                self.finish_shell(program, now);
                Effect::Continue
            },
            Outcome::GroqKeySaved { key, ok } => self.finish_groq_key(key, ok, now),
            Outcome::Groq { program } => {
                let reply = match &program {
                    ProgramOutcome::NotStarted { error } => {
                        let mut msg = "curl failed to start: ".to_string();
                        msg.append(error.as_str());
                        Err(msg)
                    },
                    ProgramOutcome::Finished { success, stdout, stderr } => groq::groq_reply_bytes(
                        *success,
                        stdout.as_slice(),
                        stderr.as_slice(),
                    ),
                };
                self.finish_groq(reply, now);
                Effect::Continue
            },
        }
    }
}

} // verus!
