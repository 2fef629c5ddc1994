//! What one run of the tool is asked to do, resolved from its flags.
use vstd::prelude::*;
use vstd::string::StrSliceExecFns;

verus! {

/// The path that stands for standard input.
pub open spec fn is_console_path(p: Seq<char>) -> bool {
    p == seq!['-']
}

/// Where the payload of a copy is read from.
#[derive(Debug)]
pub enum Input {
    /// Standard input.
    Console,
    /// A named file.
    File(String),
}

impl Input {
    /// The source reads standard input.
    pub fn console() -> (r: Input)
        ensures
            r is Console,
    {
        Input::Console
    }

    /// The source reads the file at `path`.
    pub fn file(path: String) -> (r: Input)
        ensures
            r is File,
            r->File_0@ == path@,
    {
        Input::File(path)
    }

    /// The source named by an optional path: standard input when the path is
    /// absent or is `-`, otherwise the file at that path.
    pub fn from_path(path: Option<String>) -> (r: Input)
        ensures
            r.file_path() == file_named(opt_view(path)),
    {
        match path {
            None => Input::console(),
            Some(p) => {
                let s = p.as_str();
                if s.unicode_len() == 1 && s.get_char(0) == '-' {
                    assert(p@ =~= seq!['-']);
                    Input::console()
                } else {
                    Input::file(p)
                }
            },
        }
    }

    /// The path of the file this source reads, if any.
    pub open spec fn file_path(self) -> Option<Seq<char>> {
        match self {
            Input::Console => None,
            Input::File(p) => Some(p@),
        }
    }
}

/// The view of an optional string.
pub open spec fn opt_view(s: Option<String>) -> Option<Seq<char>> {
    match s {
        None => None,
        Some(p) => Some(p@),
    }
}

/// The file that an optional input path names: none when the path is absent
/// or is the standard-input sentinel.
pub open spec fn file_named(path: Option<Seq<char>>) -> Option<Seq<char>> {
    match path {
        None => None,
        Some(p) => if is_console_path(p) {
            None
        } else {
            Some(p)
        },
    }
}

/// Which way the payload moves.
#[derive(Clone, Copy, Debug, PartialEq, Eq, Structural)]
pub enum Direction {
    /// From the input into the clipboard.
    Copy,
    /// From the clipboard to standard output.
    Paste,
}

/// Why the flags do not describe a run.
#[derive(Clone, Copy, Debug, PartialEq, Eq, Structural)]
pub enum UsageError {
    /// Neither `--copy` nor `--paste` was given.
    NoDirection,
    /// Both `--copy` and `--paste` were given.
    BothDirections,
}

/// The one transfer that a run performs.
#[derive(Clone, Copy, Debug, PartialEq, Eq, Structural)]
pub enum Action {
    CopyText,
    PasteText,
    CopyHtml,
    PasteHtml,
}

/// A run of the tool, fixed once from its flags.
#[derive(Debug)]
pub struct Invocation {
    pub direction: Direction,
    pub html: bool,
    pub input: Input,
    pub output: Option<String>,
    pub delete: bool,
}

impl UsageError {
    /// A one-line description for the user.
    pub fn message(&self) -> (r: &'static str)
        ensures
            r@ == usage_message(*self),
    {
        match self {
            UsageError::NoDirection => "one of --copy or --paste is required",
            UsageError::BothDirections => "--copy and --paste cannot be used together",
        }
    }
}

/// The description of a usage error.
pub open spec fn usage_message(e: UsageError) -> Seq<char> {
    match e {
        UsageError::NoDirection => "one of --copy or --paste is required"@,
        UsageError::BothDirections => "--copy and --paste cannot be used together"@,
    }
}

/// The transfer for a direction and a format.
pub open spec fn action_of(direction: Direction, html: bool) -> Action {
    match (direction, html) {
        (Direction::Copy, false) => Action::CopyText,
        (Direction::Paste, false) => Action::PasteText,
        (Direction::Copy, true) => Action::CopyHtml,
        (Direction::Paste, true) => Action::PasteHtml,
    }
}

impl Invocation {
    /// Resolves the flags of a run. Exactly one of `copy` and `paste` must be
    /// set; the input path defaults to standard input.
    pub fn resolve(
        copy: bool,
        paste: bool,
        input: Option<String>,
        output: Option<String>,
        html: bool,
        delete: bool,
    ) -> (r: Result<Invocation, UsageError>)
        ensures
            !copy && !paste <==> r == Err::<Invocation, UsageError>(UsageError::NoDirection),
            copy && paste <==> r == Err::<Invocation, UsageError>(UsageError::BothDirections),
            copy != paste <==> r is Ok,
            r matches Ok(inv) ==> {
                &&& inv.direction == (if copy { Direction::Copy } else { Direction::Paste })
                &&& inv.html == html
                &&& inv.delete == delete
                &&& inv.input.file_path() == file_named(opt_view(input))
                &&& opt_view(inv.output) == opt_view(output)
            },
    {
        if copy && paste {
            return Err(UsageError::BothDirections);
        }
        if !copy && !paste {
            return Err(UsageError::NoDirection);
        }
        let direction = if copy {
            Direction::Copy
        } else {
            Direction::Paste
        };
        Ok(Invocation { direction, html, input: Input::from_path(input), output, delete })
    }

    /// The transfer this run performs.
    pub fn action(&self) -> (r: Action)
        ensures
            r == action_of(self.direction, self.html),
    {
        match (self.direction, self.html) {
            (Direction::Copy, false) => Action::CopyText,
            (Direction::Paste, false) => Action::PasteText,
            (Direction::Copy, true) => Action::CopyHtml,
            (Direction::Paste, true) => Action::PasteHtml,
        }
    }

    /// The file to remove once the transfer has succeeded: the input file of
    /// a copy run with `--delete`; never standard input, never after a paste.
    pub fn file_to_delete(&self) -> (r: Option<String>)
        ensures
            opt_view(r) == (if self.delete && self.direction == Direction::Copy {
                self.input.file_path()
            } else {
                None
            }),
    {
        if self.delete && self.direction == Direction::Copy {
            match &self.input {
                Input::Console => None,
                Input::File(p) => Some(p.clone()),
            }
        } else {
            None
        }
    }
}

} // verus!
