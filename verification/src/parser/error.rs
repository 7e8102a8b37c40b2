//! The errors of the parser, and how an error is shown to a reader.
use vstd::prelude::*;

pub use crate::ast::SourceLocation as ErrorLocation;
use crate::ast::Location;
use crate::error::MultiError;
use crate::style::{bright_red, bright_red_codes, is_rendering, white_bold, white_bold_codes};
use crate::text::{decimal, decimal_text};
use vstd::hash_map::StringHashMap;

verus! {

/// The text of source files, by file name.
pub type Code = StringHashMap<String>;

/// The line that reports an error: where it is, a colon, a label and what it says.
pub open spec fn report_line(
    location: Seq<char>,
    colon: Seq<char>,
    label: Seq<char>,
    message: Seq<char>,
) -> Seq<char> {
    location + colon + " "@ + label + " "@ + message
}

/// Whether `out` reports `message` at a place that is shown as `location`, whatever styles the
/// colon and the label are written in.
pub open spec fn is_report(location: Seq<char>, message: Seq<char>, out: Seq<char>) -> bool {
    exists|colon: Seq<char>, label: Seq<char>|
        is_rendering(":"@, white_bold_codes(), colon) && is_rendering(
            "error:"@,
            bright_red_codes(),
            label,
        ) && out == #[trigger] report_line(location, colon, label, message)
}

/// A report followed by the annotated source, if there is any.
pub open spec fn with_annotation(report: Seq<char>, annotated: Option<Seq<char>>) -> Seq<char> {
    match annotated {
        Some(source) => report + "\n\n"@ + source,
        None => report,
    }
}

/// The line that reports an error.
pub fn pretty_line(location: &str, colon: &str, label: &str, message: &str) -> (res: String)
    ensures
        res@ == report_line(location@, colon@, label@, message@),
{
    let mut res = location.to_owned();
    res.append(colon);
    res.append(" ");
    res.append(label);
    res.append(" ");
    res.append(message);
    res
}

/// Adds the annotated source to a report.
pub fn annotate_report(report: String, annotated: Option<String>) -> (res: String)
    ensures
        res@ == with_annotation(
            report@,
            match annotated {
                Some(source) => Some(source@),
                None => None,
            },
        ),
{
    match annotated {
        Some(source) => {
            let mut res = report;
            res.append("\n\n");
            res.append(source.as_str());
            res
        },
        None => report,
    }
}

/// The text of the file that a location is in, where both are known.
pub fn source_of<'a>(location: &ErrorLocation, code: &'a Code) -> (res: Option<&'a String>)
    ensures
        match res {
            Some(contents) => location.file_name() matches Some(file) && code@.contains_key(file)
                && code@[file] == *contents,
            None => location.file_name() matches Some(file) ==> !code@.contains_key(file),
        },
{
    match location.file() {
        Some(file) => code.get(file.as_str()),
        None => None,
    }
}

/// An error that can be shown to a reader together with its place in the source.
pub trait PrettyError {
    /// Whether the error has something to show.
    spec fn reportable(&self) -> bool;

    /// Where the error is.
    spec fn place(&self) -> ErrorLocation;

    /// What the error says.
    spec fn message(&self) -> Seq<char>;

    /// Where the error is.
    fn location(&self) -> (res: ErrorLocation)
        requires
            self.reportable(),
        ensures
            res == self.place(),
    ;

    /// What the error says.
    fn to_string(&self) -> (res: String)
        requires
            self.reportable(),
        ensures
            res@ == self.message(),
    ;

    /// The line that reports the error. `show` writes a location out.
    fn pretty<F: Fn(&ErrorLocation) -> String>(&self, show: &F) -> (res: String)
        requires
            self.reportable(),
            call_requires(*show, (&self.place(),)),
        ensures
            exists|shown: String|
                #[trigger] call_ensures(*show, (&self.place(),), shown) && is_report(
                    shown@,
                    self.message(),
                    res@,
                ),
    {
        let location = self.location();
        let shown = show(&location);
        let colon = {
            proof {
                reveal_strlit(":");
            }
            white_bold(":")
        };
        let label = {
            proof {
                reveal_strlit("error:");
            }
            bright_red("error:")
        };
        let message = self.to_string();
        pretty_line(shown.as_str(), colon.as_str(), label.as_str(), message.as_str())
    }

    /// The line that reports the error, followed by the annotated source where the error's file
    /// is among `code` and `annotate` has something to mark in it. `show` writes a location out.
    fn pretty_with_code<
        F: Fn(&ErrorLocation) -> String,
        A: Fn(&ErrorLocation, &String) -> Option<String>,
    >(&self, show: &F, annotate: &A, code: &Code) -> (res: String)
        requires
            self.reportable(),
            call_requires(*show, (&self.place(),)),
            match self.place().file_name() {
                Some(file) => code@.contains_key(file) ==> call_requires(
                    *annotate,
                    (&self.place(), &code@[file]),
                ),
                None => true,
            },
        ensures
            exists|shown: String, report: Seq<char>|
                #![trigger call_ensures(*show, (&self.place(),), shown), is_report(shown@, self.message(), report)]
                call_ensures(*show, (&self.place(),), shown) && is_report(
                    shown@,
                    self.message(),
                    report,
                ) && match self.place().file_name() {
                    Some(file) if code@.contains_key(file) => exists|annotated: Option<String>|
                        #[trigger] call_ensures(
                            *annotate,
                            (&self.place(), &code@[file]),
                            annotated,
                        ) && res@ == with_annotation(
                            report,
                            match annotated {
                                Some(source) => Some(source@),
                                None => None,
                            },
                        ),
                    _ => res@ == report,
                },
    {
        let report = self.pretty(show);
        let location = self.location();
        match source_of(&location, code) {
            Some(contents) => {
                let annotated = annotate(&location, contents);
                annotate_report(report, annotated)
            },
            None => report,
        }
    }
}

/// A token of a query and its place. `token` is the token as a debugger shows it.
#[derive(Debug)]
pub struct TokenWithLocation {
    pub token: String,
    pub location: Location,
}

/// A failure to split a query into tokens.
#[derive(Debug)]
pub struct TokenizerError {
    pub message: String,
    pub line: u64,
    pub col: u64,
}

/// A failure to parse a query's tokens.
#[derive(Debug)]
pub enum SQLParserError {
    TokenizerError(String),
    ParserError(String),
    RecursionLimitExceeded,
}

/// An error of the parser.
#[allow(inconsistent_fields)]
#[derive(Debug)]
pub enum ParserError {
    UnexpectedToken { msg: String, token: TokenWithLocation, file: String },
    TokenizerError { source: TokenizerError, file: String },
    SQLParserError { source: SQLParserError, loc: ErrorLocation },
    Unimplemented { what: String, loc: ErrorLocation },
    InvalidSyntax { what: String, loc: ErrorLocation },
    /// Several errors. One with no sources stands for nothing and cannot be shown.
    Multiple { sources: Vec<ParserError> },
}

impl ParserError {
    /// The single errors that `self` stands for.
    pub open spec fn flattened(self) -> Seq<ParserError>
        decreases self, 0int,
    {
        match self {
            ParserError::Multiple { sources } => ParserError::flattened_all(sources@),
            _ => seq![self],
        }
    }

    /// The single errors that a list of errors stands for.
    pub open spec fn flattened_all(errs: Seq<ParserError>) -> Seq<ParserError>
        decreases errs, 1int,
    {
        if errs.len() == 0 {
            Seq::empty()
        } else {
            ParserError::flattened_all(errs.drop_last()) + errs.last().flattened()
        }
    }
}

/// An error whose place and text are given.
#[derive(Debug)]
pub struct FormattedError {
    pub location: ErrorLocation,
    pub text: String,
}

impl Clone for FormattedError {
    fn clone(&self) -> (res: Self)
        ensures
            res == *self,
    {
        FormattedError { location: self.location.clone(), text: self.text.clone() }
    }
}

impl PrettyError for FormattedError {
    open spec fn reportable(&self) -> bool {
        true
    }

    open spec fn place(&self) -> ErrorLocation {
        self.location
    }

    open spec fn message(&self) -> Seq<char> {
        self.text@
    }

    fn location(&self) -> (res: ErrorLocation) {
        self.location.clone()
    }

    fn to_string(&self) -> (res: String) {
        self.text.clone()
    }
}

impl TokenWithLocation {
    /// The token and its place as a debugger shows them.
    pub open spec fn shown(&self) -> Seq<char> {
        "TokenWithLocation { token: "@ + self.token@ + ", location: Location { line: "@ + decimal(
            self.location.line as nat,
        ) + ", column: "@ + decimal(self.location.column as nat) + " } }"@
    }

    /// The token and its place as a debugger shows them.
    pub fn debug_text(&self) -> (res: String)
        ensures
            res@ == self.shown(),
    {
        let mut res = "TokenWithLocation { token: ".to_owned();
        res.append(self.token.as_str());
        res.append(", location: Location { line: ");
        res.append(decimal_text(self.location.line).as_str());
        res.append(", column: ");
        res.append(decimal_text(self.location.column).as_str());
        res.append(" } }");
        res
    }
}

impl TokenizerError {
    /// What the error says.
    pub open spec fn shown(&self) -> Seq<char> {
        self.message@ + " at Line: "@ + decimal(self.line as nat) + ", Column "@ + decimal(
            self.col as nat,
        )
    }

    /// What the error says.
    pub fn display_text(&self) -> (res: String)
        ensures
            res@ == self.shown(),
    {
        let mut res = self.message.clone();
        res.append(" at Line: ");
        res.append(decimal_text(self.line).as_str());
        res.append(", Column ");
        res.append(decimal_text(self.col).as_str());
        res
    }
}

impl SQLParserError {
    /// What the error says.
    pub open spec fn shown(&self) -> Seq<char> {
        "sql parser error: "@ + match self {
            SQLParserError::TokenizerError(message) => message@,
            SQLParserError::ParserError(message) => message@,
            SQLParserError::RecursionLimitExceeded => "recursion limit exceeded"@,
        }
    }

    /// What the error says.
    pub fn display_text(&self) -> (res: String)
        ensures
            res@ == self.shown(),
    {
        let mut res = "sql parser error: ".to_owned();
        match self {
            SQLParserError::TokenizerError(message) => res.append(message.as_str()),
            SQLParserError::ParserError(message) => res.append(message.as_str()),
            SQLParserError::RecursionLimitExceeded => res.append("recursion limit exceeded"),
        }
        res
    }
}

impl ParserError {
    /// Whether the error that is shown for `self` exists: following the first source of each
    /// list of errors leads to a single error.
    pub open spec fn has_first(self) -> bool
        decreases self,
    {
        match self {
            ParserError::Multiple { sources } => sources@.len() > 0 && sources@[0].has_first(),
            _ => true,
        }
    }

    /// Whether the error that is shown for `self` exists.
    pub fn is_reportable(&self) -> (res: bool)
        ensures
            res == self.has_first(),
        decreases self,
    {
        match self {
            ParserError::Multiple { sources } => sources.len() > 0 && sources[0].is_reportable(),
            _ => true,
        }
    }

    /// The single error that is shown for `self`.
    pub open spec fn first(self) -> ParserError
        decreases self,
    {
        match self {
            ParserError::Multiple { sources } => if sources@.len() > 0 {
                sources@[0].first()
            } else {
                self
            },
            _ => self,
        }
    }

    /// Where a single error is.
    pub open spec fn own_place(self) -> ErrorLocation {
        match self {
            ParserError::UnexpectedToken { file, token, .. } => ErrorLocation::Single(
                file,
                token.location,
            ),
            ParserError::TokenizerError { file, source } => ErrorLocation::Single(
                file,
                Location { line: source.line, column: source.col },
            ),
            ParserError::SQLParserError { loc, .. } => loc,
            ParserError::Unimplemented { loc, .. } => loc,
            ParserError::InvalidSyntax { loc, .. } => loc,
            ParserError::Multiple { .. } => ErrorLocation::Unknown,
        }
    }

    /// What a single error says.
    pub open spec fn own_message(self) -> Seq<char> {
        match self {
            ParserError::UnexpectedToken { msg, token, .. } => "Unexpected token "@ + token.shown()
                + ": "@ + msg@,
            ParserError::TokenizerError { source, .. } => "Tokenizer error: "@ + source.shown(),
            ParserError::SQLParserError { source, .. } => "SQL parser error: "@ + source.shown(),
            ParserError::Unimplemented { what, .. } => "Unimplemented: "@ + what@,
            ParserError::InvalidSyntax { what, .. } => "Invalid syntax: "@ + what@,
            ParserError::Multiple { .. } => Seq::empty(),
        }
    }

    /// The error for something that the parser does not support.
    pub fn unimplemented(loc: ErrorLocation, what: &str) -> (res: ParserError)
        ensures
            res matches ParserError::Unimplemented { what: text, loc: place } && text@ == what@
                && place == loc,
    {
        ParserError::Unimplemented { what: what.to_owned(), loc }
    }

    /// The error for a query that breaks a rule of the syntax.
    pub fn invalid(loc: ErrorLocation, what: &str) -> (res: ParserError)
        ensures
            res matches ParserError::InvalidSyntax { what: text, loc: place } && text@ == what@
                && place == loc,
    {
        ParserError::InvalidSyntax { what: what.to_owned(), loc }
    }
}

/// Fails with the error for a token that does not fit where it stands.
pub fn unexpected_token<T>(file: String, token: TokenWithLocation, msg: String) -> (res: Result<
    T,
    ParserError,
>)
    ensures
        res == Err::<T, ParserError>(ParserError::UnexpectedToken { msg, token, file }),
{
    Err(ParserError::UnexpectedToken { msg, token, file })
}

impl PrettyError for ParserError {
    open spec fn reportable(&self) -> bool {
        self.has_first()
    }

    open spec fn place(&self) -> ErrorLocation {
        self.first().own_place()
    }

    open spec fn message(&self) -> Seq<char> {
        self.first().own_message()
    }

    fn location(&self) -> (res: ErrorLocation)
        ensures
            match *self {
                ParserError::UnexpectedToken { file, token, .. } => res matches
                    ErrorLocation::Single(name, at) && name == file && at.line
                    == token.location.line && at.column == token.location.column,
                ParserError::TokenizerError { file, source } => res matches ErrorLocation::Single(
                    name,
                    at,
                ) && name == file && at.line == source.line && at.column == source.col,
                ParserError::SQLParserError { loc, .. } => res == loc,
                ParserError::Unimplemented { loc, .. } => res == loc,
                ParserError::InvalidSyntax { loc, .. } => res == loc,
                ParserError::Multiple { sources } => res == sources@[0].place(),
            },
        decreases self,
    {
        match self {
            ParserError::UnexpectedToken { file, token, .. } => ErrorLocation::Single(
                file.clone(),
                token.location,
            ),
            ParserError::TokenizerError { file, source } => ErrorLocation::Single(
                file.clone(),
                Location { line: source.line, column: source.col },
            ),
            ParserError::SQLParserError { loc, .. } => loc.clone(),
            ParserError::Unimplemented { loc, .. } => loc.clone(),
            ParserError::InvalidSyntax { loc, .. } => loc.clone(),
            ParserError::Multiple { sources } => sources[0].location(),
        }
    }

    fn to_string(&self) -> (res: String)
        decreases self,
    {
        match self {
            ParserError::UnexpectedToken { msg, token, .. } => {
                let mut res = "Unexpected token ".to_owned();
                res.append(token.debug_text().as_str());
                res.append(": ");
                res.append(msg.as_str());
                res
            },
            ParserError::TokenizerError { source, .. } => {
                "Tokenizer error: ".to_owned().concat(source.display_text().as_str())
            },
            ParserError::SQLParserError { source, .. } => {
                "SQL parser error: ".to_owned().concat(source.display_text().as_str())
            },
            ParserError::Unimplemented { what, .. } => {
                "Unimplemented: ".to_owned().concat(what.as_str())
            },
            ParserError::InvalidSyntax { what, .. } => {
                "Invalid syntax: ".to_owned().concat(what.as_str())
            },
            ParserError::Multiple { sources } => sources[0].to_string(),
        }
    }
}

impl MultiError for ParserError {
    open spec fn errors(self) -> Seq<ParserError> {
        self.flattened()
    }

    open spec fn all_errors(errs: Seq<ParserError>) -> Seq<ParserError> {
        ParserError::flattened_all(errs)
    }

    fn new_multi_error(errs: Vec<Self>) -> (res: Self)
        ensures
            res == (ParserError::Multiple { sources: errs }),
    {
        ParserError::Multiple { sources: errs }
    }

    fn into_errors(self) -> (res: Vec<Self>)
        decreases self,
    {
        let ghost whole = self;
        match self {
            ParserError::Multiple { sources } => {
                let ghost listed = sources;
                let ghost all = sources@;
                let mut res: Vec<ParserError> = Vec::new();
                for err in it: sources
                    invariant
                        it.seq() == all,
                        all == listed@,
                        whole == self,
                        whole == (ParserError::Multiple { sources: listed }),
                        res@ == ParserError::flattened_all(all.take(it.index())),
                {
                    proof {
                        assert(err == all[it.index()]);
                        assert(decreases_to!(whole => whole->sources));
                        assert(decreases_to!(listed => listed@));
                        assert(decreases_to!(listed@ => all[it.index()]));
                        assert(all.take(it.index() + 1).drop_last() == all.take(it.index()));
                    }
                    let mut errs = err.into_errors();
                    res.append(&mut errs);
                }
                proof {
                    assert(all.take(all.len() as int) == all);
                }
                res
            },
            _ => {
                let mut res: Vec<ParserError> = Vec::new();
                res.push(self);
                res
            },
        }
    }
}

} // verus!
