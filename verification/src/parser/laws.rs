//! Laws of the parser's errors.
use vstd::prelude::*;

use crate::ast::{Location, SourceLocation};
use crate::error::MultiError;
use crate::parser::error::{
    is_report, report_line, with_annotation, FormattedError, ParserError, PrettyError,
    SQLParserError, TokenWithLocation, TokenizerError,
};
use crate::style::{bright_red_codes, is_rendering, white_bold_codes};
use crate::text::decimal;

verus! {

/// Whether an error stands for itself alone.
pub open spec fn is_single(err: ParserError) -> bool {
    !(err is Multiple)
}

/// Taking an error apart leaves single errors only, however deep the lists in it are nested.
pub proof fn law_into_errors_gives_single_errors(err: ParserError)
    ensures
        forall|i: int| 0 <= i < err.errors().len() ==> is_single(#[trigger] err.errors()[i]),
    decreases err, 0int,
{
    if let ParserError::Multiple { sources } = err {
        assert(decreases_to!(err => err->sources));
        assert(decreases_to!(sources => sources@));
        law_all_errors_gives_single_errors(sources@);
        assert(err.errors() == ParserError::all_errors(sources@));
    } else {
        assert(err.errors() == seq![err]);
    }
}

/// Taking a list of errors apart leaves single errors only.
pub proof fn law_all_errors_gives_single_errors(errs: Seq<ParserError>)
    ensures
        forall|i: int|
            0 <= i < ParserError::all_errors(errs).len() ==> is_single(
                #[trigger] ParserError::all_errors(errs)[i],
            ),
    decreases errs, 1int,
{
    if errs.len() > 0 {
        assert(decreases_to!(errs => errs.last()));
        law_all_errors_gives_single_errors(errs.drop_last());
        law_into_errors_gives_single_errors(errs.last());
        let front = ParserError::all_errors(errs.drop_last());
        let back = errs.last().errors();
        assert(ParserError::all_errors(errs) == front + back);
        assert forall|i: int| 0 <= i < ParserError::all_errors(errs).len() implies is_single(
            #[trigger] ParserError::all_errors(errs)[i],
        ) by {
            if i < front.len() {
                assert(is_single(front[i]));
            } else {
                assert(is_single(back[i - front.len()]));
            }
        }
    }
}

/// Taking a list of single errors apart gives the list.
pub proof fn law_single_errors_stay(errs: Seq<ParserError>)
    requires
        forall|i: int| 0 <= i < errs.len() ==> is_single(#[trigger] errs[i]),
    ensures
        ParserError::all_errors(errs) == errs,
    decreases errs.len(),
{
    if errs.len() > 0 {
        law_single_errors_stay(errs.drop_last());
        assert(is_single(errs[errs.len() - 1]));
        assert(errs.last().flattened() == seq![errs.last()]);
        assert(errs == errs.drop_last() + seq![errs.last()]);
    }
}

/// Putting the parts of an error together again and taking the result apart gives the same parts.
pub proof fn law_regrouping_keeps_the_errors(err: ParserError, parts: Vec<ParserError>)
    requires
        parts@ == err.errors(),
    ensures
        (ParserError::Multiple { sources: parts }).errors() == err.errors(),
{
    law_into_errors_gives_single_errors(err);
    law_single_errors_stay(parts@);
}

/// The errors of two lists, one after the other, are the errors of the first and then those of
/// the second.
pub proof fn law_errors_of_joined_lists(left: Seq<ParserError>, right: Seq<ParserError>)
    ensures
        ParserError::all_errors(left + right) == ParserError::all_errors(left)
            + ParserError::all_errors(right),
    decreases right.len(),
{
    if right.len() == 0 {
        assert(left + right == left);
    } else {
        law_errors_of_joined_lists(left, right.drop_last());
        assert((left + right).drop_last() == left + right.drop_last());
        assert(ParserError::all_errors(left + right) == ParserError::all_errors(left)
            + ParserError::all_errors(right.drop_last()) + right.last().errors());
    }
}

/// What is shown for an error is the first of the single errors that it stands for.
pub proof fn law_shown_error_is_the_first(err: ParserError)
    requires
        err.reportable(),
    ensures
        err.errors().len() > 0,
        err.errors()[0] == err.first(),
        is_single(err.first()),
    decreases err,
{
    if let ParserError::Multiple { sources } = err {
        assert(decreases_to!(err => err->sources));
        assert(decreases_to!(sources => sources@));
        assert(decreases_to!(sources@ => sources@[0]));
        law_shown_error_is_the_first(sources@[0]);
        let head = sources@.take(1);
        let tail = sources@.skip(1);
        assert(sources@ == head + tail);
        law_errors_of_joined_lists(head, tail);
        assert(head.drop_last() == Seq::<ParserError>::empty());
        assert(head.last() == sources@[0]);
        assert(ParserError::all_errors(head.drop_last()) == Seq::<ParserError>::empty());
        assert(ParserError::all_errors(head) == sources@[0].errors());
    }
}

/// An error and the list of its parts are shown alike: at the same place, with the same text.
pub proof fn law_regrouping_keeps_what_is_shown(err: ParserError, parts: Vec<ParserError>)
    requires
        err.reportable(),
        parts@ == err.errors(),
    ensures
        (ParserError::Multiple { sources: parts }).reportable(),
        (ParserError::Multiple { sources: parts }).place() == err.place(),
        (ParserError::Multiple { sources: parts }).message() == err.message(),
{
    law_shown_error_is_the_first(err);
    let list = ParserError::Multiple { sources: parts };
    assert(list.has_first() == parts@[0].has_first());
    assert(list.first() == parts@[0].first());
}

/// A report starts with the error's place and ends with what the error says, in whatever styles it
/// is written.
pub proof fn law_report_starts_with_place_and_ends_with_message(
    location: Seq<char>,
    message: Seq<char>,
    report: Seq<char>,
)
    requires
        is_report(location, message, report),
    ensures
        location.is_prefix_of(report),
        message.is_suffix_of(report),
{
    let (colon, label) = choose|colon: Seq<char>, label: Seq<char>|
        report == #[trigger] report_line(location, colon, label, message);
    assert(report.take(location.len() as int) == location);
    assert(report.skip(report.len() - message.len()) == message);
}

/// A known location is in the file that it names, and an unknown one is in no file.
pub proof fn law_locations_name_their_file(file: String, at: Location)
    ensures
        SourceLocation::Single(file, at).file_name() == Some(file@),
        SourceLocation::Unknown.file_name() is None,
{
}

/// An unexpected token is in its file, on the token's own line and in the token's own column.
pub proof fn law_unexpected_token_is_where_the_token_is(
    msg: String,
    token: TokenWithLocation,
    file: String,
)
    ensures
        (ParserError::UnexpectedToken { msg, token, file }).place() matches SourceLocation::Single(
            name,
            at,
        ) && name == file && at.line == token.location.line && at.column == token.location.column,
{
}

/// A tokenizer's failure is in its file, on the line and in the column that the tokenizer gives.
pub proof fn law_tokenizer_error_is_where_the_tokenizer_stopped(
    source: TokenizerError,
    file: String,
)
    ensures
        (ParserError::TokenizerError { source, file }).place() matches SourceLocation::Single(
            name,
            at,
        ) && name == file && at.line == source.line && at.column == source.col,
{
}

/// An error that is made with a location is at that location.
pub proof fn law_located_errors_keep_their_location(
    source: SQLParserError,
    what: String,
    loc: SourceLocation,
)
    ensures
        (ParserError::SQLParserError { source, loc }).place() == loc,
        (ParserError::Unimplemented { what, loc }).place() == loc,
        (ParserError::InvalidSyntax { what, loc }).place() == loc,
{
}

/// A list of errors is reported where and as its first error is, and can be reported exactly if
/// there is a first error that can be.
pub proof fn law_list_is_reported_as_its_first_error(sources: Vec<ParserError>)
    ensures
        (ParserError::Multiple { sources }).reportable() <==> sources@.len() > 0
            && sources@[0].reportable(),
        sources@.len() > 0 ==> (ParserError::Multiple { sources }).place() == sources@[0].place(),
        sources@.len() > 0 ==> (ParserError::Multiple { sources }).message()
            == sources@[0].message(),
{
    let list = ParserError::Multiple { sources };
    assert(list.has_first() == (sources@.len() > 0 && sources@[0].has_first()));
    if sources@.len() > 0 {
        assert(list.first() == sources@[0].first());
    }
}

/// Every single error can be reported.
pub proof fn law_single_errors_can_be_reported(err: ParserError)
    requires
        !(err is Multiple),
    ensures
        err.reportable(),
{
}

/// An unexpected token's error shows the token, its line and its column, and then the message.
pub proof fn law_unexpected_token_says_what_it_is(
    msg: String,
    token: TokenWithLocation,
    file: String,
)
    ensures
        (ParserError::UnexpectedToken { msg, token, file }).message()
            == "Unexpected token TokenWithLocation { token: "@ + token.token@
            + ", location: Location { line: "@ + decimal(token.location.line as nat)
            + ", column: "@ + decimal(token.location.column as nat) + " } }: "@ + msg@,
        token.shown() == "TokenWithLocation { token: "@ + token.token@
            + ", location: Location { line: "@ + decimal(token.location.line as nat)
            + ", column: "@ + decimal(token.location.column as nat) + " } }"@,
{
    reveal_strlit("Unexpected token TokenWithLocation { token: ");
    reveal_strlit("Unexpected token ");
    reveal_strlit("TokenWithLocation { token: ");
    reveal_strlit(" } }: ");
    reveal_strlit(" } }");
    reveal_strlit(": ");
    assert("Unexpected token TokenWithLocation { token: "@ =~= "Unexpected token "@
        + "TokenWithLocation { token: "@);
    assert(" } }: "@ =~= " } }"@ + ": "@);
    let middle = token.token@ + ", location: Location { line: "@ + decimal(
        token.location.line as nat,
    ) + ", column: "@ + decimal(token.location.column as nat);
    assert((ParserError::UnexpectedToken { msg, token, file }).message() =~= "Unexpected token "@
        + ("TokenWithLocation { token: "@ + middle + " } }"@) + ": "@ + msg@);
    assert((ParserError::UnexpectedToken { msg, token, file }).message()
        =~= "Unexpected token TokenWithLocation { token: "@ + token.token@
        + ", location: Location { line: "@ + decimal(token.location.line as nat) + ", column: "@
        + decimal(token.location.column as nat) + " } }: "@ + msg@);
}

/// The other single errors say what kind of error they are, and then what their source or their
/// text says.
pub proof fn law_single_errors_say_what_they_are(
    tokenizer: TokenizerError,
    source: SQLParserError,
    what: String,
    file: String,
    loc: SourceLocation,
)
    ensures
        (ParserError::TokenizerError { source: tokenizer, file }).message() == "Tokenizer error: "@
            + (tokenizer.message@ + " at Line: "@ + decimal(tokenizer.line as nat) + ", Column "@
            + decimal(tokenizer.col as nat)),
        (ParserError::SQLParserError { source, loc }).message() == "SQL parser error: "@
            + source.shown(),
        (ParserError::Unimplemented { what, loc }).message() == "Unimplemented: "@ + what@,
        (ParserError::InvalidSyntax { what, loc }).message() == "Invalid syntax: "@ + what@,
        tokenizer.shown() == tokenizer.message@ + " at Line: "@ + decimal(tokenizer.line as nat)
            + ", Column "@ + decimal(tokenizer.col as nat),
{
}

/// What the SQL parser's failures say.
pub proof fn law_sql_parser_errors_say_what_they_are(message: String)
    ensures
        SQLParserError::TokenizerError(message).shown() == "sql parser error: "@ + message@,
        SQLParserError::ParserError(message).shown() == "sql parser error: "@ + message@,
        SQLParserError::RecursionLimitExceeded.shown() == "sql parser error: "@
            + "recursion limit exceeded"@,
{
}

/// A formatted error can always be reported, at its location and with its text.
pub proof fn law_formatted_error_is_what_it_was_given(err: FormattedError)
    ensures
        err.reportable(),
        err.place() == err.location,
        err.message() == err.text@,
{
}

/// A single error stands for itself, a list of errors for the errors of its sources, no errors for
/// none, and a list of one error for what that error stands for.
pub proof fn law_errors_of_each_kind(err: ParserError, sources: Vec<ParserError>)
    ensures
        !(err is Multiple) ==> err.errors() == seq![err],
        (ParserError::Multiple { sources }).errors() == ParserError::all_errors(sources@),
        ParserError::all_errors(Seq::empty()) == Seq::<ParserError>::empty(),
        ParserError::all_errors(seq![err]) == err.errors(),
{
    let one = seq![err];
    assert(one.drop_last() == Seq::<ParserError>::empty());
    assert(one.last() == err);
    assert(ParserError::flattened_all(one.drop_last()) == Seq::<ParserError>::empty());
    assert(ParserError::flattened_all(one) == ParserError::flattened_all(one.drop_last())
        + one.last().flattened());
    assert(ParserError::flattened_all(one) == err.flattened());
    let list = ParserError::Multiple { sources };
    assert(list.flattened() == ParserError::flattened_all(sources@));
}

/// A single error of a list is among the errors that the list stands for.
pub proof fn law_no_error_is_lost(sources: Vec<ParserError>, i: int)
    requires
        0 <= i < sources@.len(),
        !(sources@[i] is Multiple),
    ensures
        (ParserError::Multiple { sources }).errors().contains(sources@[i]),
{
    let before = sources@.take(i);
    let at = seq![sources@[i]];
    let after = sources@.skip(i + 1);
    assert(sources@ == before + at + after);
    law_errors_of_joined_lists(before + at, after);
    law_errors_of_joined_lists(before, at);
    law_errors_of_each_kind(sources@[i], sources);
    let all = ParserError::all_errors(sources@);
    let k = ParserError::all_errors(before).len() as int;
    assert(all[k] == sources@[i]);
}

/// The colon and the label of a report: bare, between their control sequences (bold white for the
/// colon, bright red for the label), or with the closing sequence alone.
pub proof fn law_report_marks(colon: Seq<char>, label: Seq<char>)
    ensures
        is_rendering(":"@, white_bold_codes(), colon) <==> {
            ||| colon == ":"@
            ||| colon == seq!['\u{1b}', '[', '1', ';', '3', '7', 'm'] + ":"@ + seq![
                '\u{1b}',
                '[',
                '0',
                'm',
            ]
            ||| colon == ":"@ + seq!['\u{1b}', '[', '0', 'm']
        },
        is_rendering("error:"@, bright_red_codes(), label) <==> {
            ||| label == "error:"@
            ||| label == seq!['\u{1b}', '[', '9', '1', 'm'] + "error:"@ + seq![
                '\u{1b}',
                '[',
                '0',
                'm',
            ]
            ||| label == "error:"@ + seq!['\u{1b}', '[', '0', 'm']
        },
{
    assert(crate::style::style_on(white_bold_codes()) =~= seq![
        '\u{1b}',
        '[',
        '1',
        ';',
        '3',
        '7',
        'm',
    ]);
    assert(crate::style::style_on(bright_red_codes()) =~= seq!['\u{1b}', '[', '9', '1', 'm']);
}

/// Every report is the place, a colon, a space, a label, a space and the message, with nothing else
/// in it but the styles of the colon and of the label; and every such text is a report.
pub proof fn law_report_is_place_colon_label_and_message(
    location: Seq<char>,
    message: Seq<char>,
    report: Seq<char>,
)
    ensures
        is_report(location, message, report) <==> exists|colon: Seq<char>, label: Seq<char>|
            #![trigger is_rendering(":"@, white_bold_codes(), colon), is_rendering("error:"@, bright_red_codes(), label)]
            is_rendering(":"@, white_bold_codes(), colon) && is_rendering(
                "error:"@,
                bright_red_codes(),
                label,
            ) && report == location + colon + seq![' '] + label + seq![' '] + message,
{
    reveal_strlit(" ");
    assert(" "@ =~= seq![' ']);
    if is_report(location, message, report) {
        let (colon, label) = choose|colon: Seq<char>, label: Seq<char>|
            is_rendering(":"@, white_bold_codes(), colon) && is_rendering(
                "error:"@,
                bright_red_codes(),
                label,
            ) && report == #[trigger] report_line(location, colon, label, message);
        assert(is_rendering(":"@, white_bold_codes(), colon) && is_rendering(
            "error:"@,
            bright_red_codes(),
            label,
        ));
    }
    assert forall|colon: Seq<char>, label: Seq<char>|
        #![trigger is_rendering(":"@, white_bold_codes(), colon), is_rendering("error:"@, bright_red_codes(), label)]
        is_rendering(":"@, white_bold_codes(), colon) && is_rendering(
            "error:"@,
            bright_red_codes(),
            label,
        ) && report == location + colon + seq![' '] + label + seq![' ']
            + message implies is_report(location, message, report) by {
        assert(report == report_line(location, colon, label, message));
    }
}

/// The annotated source follows a report after an empty line; without it the report stays as it
/// is.
pub proof fn law_annotation_follows_the_report(report: Seq<char>, source: Seq<char>)
    ensures
        with_annotation(report, Some(source)) == report + seq!['\n', '\n'] + source,
        with_annotation(report, None) == report,
{
    reveal_strlit("\n\n");
    assert("\n\n"@ =~= seq!['\n', '\n']);
}

/// The parts that a report line is made of stand in it in order, with one space before and one
/// after the label.
pub proof fn law_report_line_keeps_its_parts(
    location: Seq<char>,
    colon: Seq<char>,
    label: Seq<char>,
    message: Seq<char>,
)
    ensures
        report_line(location, colon, label, message) == location + colon + seq![' '] + label
            + seq![' '] + message,
{
    reveal_strlit(" ");
    assert(" "@ =~= seq![' ']);
}

} // verus!
