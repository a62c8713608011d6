//! Styled text as the terminal widgets take it, and the few things this
//! crate does with it: making it from ANSI-coded or plain strings, copying
//! it, and reading its characters back.
use vstd::prelude::*;

use ratatui::text::{Line, Span, Text};

use crate::preview::{line_spans, line_spans_from};
use crate::strings::push_char;

verus! {

/// `ratatui::text::Text`, carried through as it is: lines of spans, each
/// span a string with a style.  What a text holds is named by
/// [`text_lines`]; styles are never looked at.
#[verifier::external_type_specification]
#[verifier::external_body]
pub struct ExText<'a>(Text<'a>);

/// The styled text that a string with ANSI escape codes parses to, if it
/// parses.
pub uninterp spec fn ansi_parsed(input: Seq<char>) -> Option<Text<'static>>;

/// The unstyled text whose lines are the lines of a string.
pub uninterp spec fn raw_text(content: Seq<char>) -> Text<'static>;

/// What a text holds: for each of its lines, the contents of the line's
/// spans.
pub uninterp spec fn text_lines(text: Text<'static>) -> Seq<Seq<Seq<char>>>;

/// What the unstyled text of a string holds: a line for each line of the
/// string, and in it one span with the line's characters, or no span
/// where the line is empty.  An empty string makes one empty line.
pub open spec fn raw_lines(content: Seq<char>) -> Seq<Seq<Seq<char>>> {
    if content.len() == 0 {
        seq![Seq::<Seq<char>>::empty()]
    } else {
        line_spans(content).map_values(
            |span: (usize, usize)|
                if span.0 == span.1 {
                    Seq::<Seq<char>>::empty()
                } else {
                    seq![content.subrange(span.0 as int, span.1 as int)]
                },
        )
    }
}

/// Parses a string with ANSI escape codes into styled text.
///
/// Wraps `ansi_to_tui::IntoText::into_text` on the string's bytes.  The
/// result is a function of the input alone and is named by
/// [`ansi_parsed`]; an error of the parser becomes `None`.
#[verifier::external_body]
pub(crate) fn parse_ansi(input: &str) -> (r: Option<Text<'static>>)
    ensures
        r == ansi_parsed(input@),
{
    ansi_to_tui::IntoText::into_text(&input.as_bytes()).ok()
}

/// Makes unstyled text of a string, one line of text for each of its lines.
///
/// Wraps the `From<String>` impl of `ratatui::text::Text`; the result is
/// named by [`raw_text`].  It splits the string with `str::lines` and makes
/// of each line the spans that `str::lines` finds in it: one, or none for
/// an empty line.
#[verifier::external_body]
pub(crate) fn text_from(content: String) -> (r: Text<'static>)
    ensures
        r == raw_text(content@),
        text_lines(r) == raw_lines(content@),
{
    Text::from(content)
}

/// Copies a text.
///
/// Wraps the `Clone` impl of `ratatui::text::Text`, which is derived: the
/// copy equals what was copied.
#[verifier::external_body]
pub(crate) fn clone_text(text: &Text<'static>) -> (r: Text<'static>)
    ensures
        r == *text,
{
    text.clone()
}

/// Hands out what a text holds: each line as the list of its spans'
/// contents.
///
/// Reads the public fields `lines`, `spans` and `content` of
/// `ratatui::text::Text`, `Line` and `Span`.
#[verifier::external_body]
pub(crate) fn span_contents(text: &Text<'static>) -> (r: Vec<Vec<String>>)
    ensures
        r.deep_view() == text_lines(*text),
{
    text.lines.iter().map(|line| line.spans.iter().map(|span| span.content.to_string()).collect())
        .collect()
}

/// Removes the first `count` lines of a text.
///
/// Drains the public field `lines` of `ratatui::text::Text`; the lines left
/// are those that followed.
#[verifier::external_body]
pub(crate) fn drop_lines(text: Text<'static>, count: usize) -> (r: Text<'static>)
    requires
        count <= text_lines(text).len(),
    ensures
        text_lines(r) == text_lines(text).skip(count as int),
{
    let mut text = text;
    text.lines.drain(0..count);
    text
}

/// What a text holds when every span's content is put through
/// [`logo_line`](crate::ui::logo_line).
pub open spec fn logo_lines(
    lines: Seq<Seq<Seq<char>>>,
    subtitle: Seq<char>,
    version: Seq<char>,
) -> Seq<Seq<Seq<char>>> {
    lines.map_values(
        |line: Seq<Seq<char>>|
            line.map_values(|content: Seq<char>| crate::ui::logo_line(content, subtitle, version)),
    )
}

/// Makes a text anew with the given contents in place of its spans' own.
///
/// Builds the result with `Text::from`, `Line::from` and `Span::styled` of
/// `ratatui::text`: every span keeps its style and gets the content that
/// stands at its place in `contents`.
#[verifier::external_body]
pub(crate) fn with_contents(logo: &Text<'static>, contents: Vec<Vec<String>>) -> (r: Text<'static>)
    requires
        contents@.len() == text_lines(*logo).len(),
        forall|i: int|
            0 <= i < contents@.len() ==> (#[trigger] contents@[i])@.len() == text_lines(
                *logo,
            )[i].len(),
    ensures
        text_lines(r) == contents.deep_view(),
{
    let lines = logo.lines.iter().zip(contents).map(
        |(line, row)| {
            let spans = line.spans.iter().zip(row);
            Line::from(spans.map(|(span, content)| Span::styled(content, span.style)).collect::<Vec<_>>())
        },
    );
    Text::from(lines.collect::<Vec<_>>())
}

/// The parts of a line, one after the other.
pub open spec fn concatenated(parts: Seq<Seq<char>>) -> Seq<char>
    decreases parts.len(),
{
    if parts.len() == 0 {
        Seq::empty()
    } else {
        concatenated(parts.drop_last()) + parts.last()
    }
}

/// The lines, each the concatenation of its parts, with a line feed between
/// one and the next.
pub open spec fn joined_lines(lines: Seq<Seq<Seq<char>>>) -> Seq<char>
    decreases lines.len(),
{
    if lines.len() == 0 {
        Seq::empty()
    } else if lines.len() == 1 {
        concatenated(lines[0])
    } else {
        joined_lines(lines.drop_last()) + seq!['\n'] + concatenated(lines.last())
    }
}

/// The characters of a text, without its styles.
pub open spec fn plain_text(text: Text<'static>) -> Seq<char> {
    joined_lines(text_lines(text))
}

/// A string that has no line feed is all of one line.
pub proof fn lemma_one_line(s: Seq<char>, i: int)
    requires
        0 <= i <= s.len() <= usize::MAX,
        forall|k: int| 0 <= k < s.len() ==> s[k] != '\n',
    ensures
        line_spans_from(s, i, 0) == if s.len() > 0 {
            seq![(0usize, s.len() as usize)]
        } else {
            Seq::<(usize, usize)>::empty()
        },
    decreases s.len() - i,
{
    if i < s.len() {
        lemma_one_line(s, i + 1);
    }
}

/// The unstyled text of a message in one line holds the message, and
/// reads back as the message.
pub proof fn lemma_message_text(message: Seq<char>)
    requires
        0 < message.len() <= usize::MAX,
        forall|k: int| 0 <= k < message.len() ==> message[k] != '\n',
    ensures
        raw_lines(message) == seq![seq![message]],
        joined_lines(raw_lines(message)) == message,
{
    lemma_one_line(message, 0);
    assert(message.subrange(0, message.len() as int) =~= message);
    assert(raw_lines(message) =~= seq![seq![message]]);
    let line = seq![message];
    assert(line.drop_last() =~= Seq::<Seq<char>>::empty());
    assert(concatenated(line) =~= message) by {
        assert(concatenated(line.drop_last()) =~= Seq::<char>::empty());
        assert(line.last() == message);
    }
}

/// The number of lines of a text.
pub fn line_count(text: &Text<'static>) -> (r: usize)
    ensures
        r == text_lines(*text).len(),
{
    let lines = span_contents(text);
    lines.len()
}

/// Reads the characters of a text back, without its styles: the lines, with
/// a line feed between one and the next.
pub fn text_to_string(text: &Text<'static>) -> (r: String)
    ensures
        r@ == plain_text(*text),
{
    let lines = span_contents(text);
    let ghost model = lines.deep_view();
    let mut out = String::new();
    let mut i: usize = 0;
    while i < lines.len()
        invariant
            i <= lines@.len(),
            model == lines.deep_view(),
            model.len() == lines@.len(),
            out@ == joined_lines(model.take(i as int)),
        decreases lines@.len() - i,
    {
        let ghost before = out@;
        if i > 0 {
            push_char(&mut out, '\n');
        }
        let ghost started = out@;
        let spans = &lines[i];
        assert(model[i as int] == spans.deep_view());
        let mut j: usize = 0;
        while j < spans.len()
            invariant
                j <= spans@.len(),
                spans.deep_view().len() == spans@.len(),
                out@ == started + concatenated(spans.deep_view().take(j as int)),
            decreases spans@.len() - j,
        {
            let span = &spans[j];
            assert(spans.deep_view()[j as int] == span@);
            let chars = crate::strings::chars_of(span.as_str());
            crate::strings::push_chars(&mut out, &chars, 0, chars.len());
            proof {
                assert(chars@.subrange(0, chars@.len() as int) =~= chars@);
                assert(spans.deep_view().take(j + 1).drop_last() =~= spans.deep_view().take(
                    j as int,
                ));
                assert(spans.deep_view().take(j + 1).last() == span@);
                assert(out@ =~= started + concatenated(spans.deep_view().take(j + 1)));
            }
            j += 1;
        }
        proof {
            assert(spans.deep_view().take(spans@.len() as int) =~= spans.deep_view());
            assert(model.take(i + 1).drop_last() =~= model.take(i as int));
            assert(model.take(i + 1).last() == model[i as int]);
            if i == 0 {
                assert(model.take(1).len() == 1);
                assert(before =~= Seq::<char>::empty());
                assert(out@ =~= concatenated(model[0]));
            } else {
                assert(model.take(i + 1).len() > 1);
            }
        }
        i += 1;
    }
    assert(model.take(lines@.len() as int) =~= model);
    out
}

} // verus!
