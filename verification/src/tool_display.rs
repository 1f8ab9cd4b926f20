//! How tool calls and their results are shown.

use crate::json;
use crate::json::{str_in, Json};
use crate::text;
use crate::text::{
    byte_len_of, cut_to, decimal_of, joined, lines_of, padded_left, same, signed_decimal_of,
    trimmed_end,
};
use vstd::prelude::*;
use vstd::string::*;

verus! {

/// The most lines of a result that are shown.
pub const DISPLAY_LINES: usize = 20;

/// A text with at most `n` bytes of it shown. There is none where the text is
/// longer and cannot be cut off there.
pub open spec fn clipped(s: Seq<char>, n: nat) -> Option<Seq<char>> {
    if text::byte_len(s) <= n {
        Some(s)
    } else if text::cuts_at(s, n as int) {
        Some(text::cut(s, n as int) + "..."@)
    } else {
        None
    }
}

/// A text with at most `n` bytes of it shown, where it can be cut off there.
pub fn clip(s: &str, n: usize) -> (r: Option<String>)
    ensures
        r.deep_view() == clipped(s@, n as nat),
{
    if byte_len_of(s) <= n {
        Some(s.to_owned())
    } else if s.is_char_boundary(n) {
        let mut r = cut_to(s, n);
        r.push_str("...");
        Some(r)
    } else {
        None
    }
}

// ---------------------------------------------------------------------------
// Inputs
// ---------------------------------------------------------------------------

/// Which lines `file_read` is asked for. There is no telling where the last
/// would be beyond any line number.
pub open spec fn lines_asked(input: json::JsonView) -> Option<Seq<char>> {
    match input.get_u64("offset"@) {
        None => Some(Seq::empty()),
        Some(offset) => match input.get_u64("limit"@) {
            None => Some(" (from line "@ + text::decimal(offset as nat) + ")"@),
            Some(limit) => if offset + limit <= u64::MAX {
                Some(
                    " (lines "@ + text::decimal(offset as nat) + "-"@ + text::decimal(
                        (offset + limit) as nat,
                    ) + ")"@,
                )
            } else {
                None
            },
        },
    }
}

/// A tool's input in one line.
pub open spec fn input_summary(tool_name: Seq<char>, input: json::JsonView) -> Option<Seq<char>> {
    if tool_name == "file_read"@ {
        match lines_asked(input) {
            Some(lines) => Some(json::str_or(input, "path"@, "?"@) + lines),
            None => None,
        }
    } else if tool_name == "file_write"@ {
        Some(
            json::str_or(input, "path"@, "?"@) + " ("@ + text::decimal(
                text::byte_len(json::str_or(input, "content"@, ""@)),
            ) + " bytes)"@,
        )
    } else if tool_name == "shell"@ {
        Some(json::str_or(input, "command"@, "?"@))
    } else if tool_name == "grep"@ {
        Some(
            "/"@ + json::str_or(input, "pattern"@, "?"@) + "/ in "@ + json::str_or(input, "path"@, "."@),
        )
    } else if tool_name == "ls"@ {
        Some(json::str_or(input, "path"@, "."@))
    } else {
        clipped(json::json_text(input), 120)
    }
}

/// A tool's input in one line. There is none where the document of an unknown
/// tool cannot be cut off, or lines are asked for beyond any line number.
pub fn format_tool_input(tool_name: &str, input: &Json) -> (r: Option<String>)
    ensures
        r.deep_view() == input_summary(tool_name@, input.deep_view()),
{
    if same(tool_name, "file_read") {
        let mut s = str_in(input, "path", "?").to_owned();
        match input.get_u64("offset") {
            None => {
                assert(s@ + Seq::empty() =~= s@);
            },
            Some(offset) => match input.get_u64("limit") {
                None => {
                    let ghost path = s@;
                    s.push_str(" (from line ");
                    s.push_str(decimal_of(offset).as_str());
                    s.push_str(")");
                    assert(s@ =~= path + (" (from line "@ + text::decimal(offset as nat) + ")"@));
                },
                Some(limit) => {
                    if limit > u64::MAX - offset {
                        return None;
                    }
                    let ghost path = s@;
                    s.push_str(" (lines ");
                    s.push_str(decimal_of(offset).as_str());
                    s.push_str("-");
                    s.push_str(decimal_of(offset + limit).as_str());
                    s.push_str(")");
                    assert(s@ =~= path + (" (lines "@ + text::decimal(offset as nat) + "-"@
                        + text::decimal((offset + limit) as nat) + ")"@));
                },
            },
        }
        Some(s)
    } else if same(tool_name, "file_write") {
        let mut s = str_in(input, "path", "?").to_owned();
        let n: usize = byte_len_of(str_in(input, "content", ""));
        s.push_str(" (");
        s.push_str(decimal_of(n as u64).as_str());
        s.push_str(" bytes)");
        Some(s)
    } else if same(tool_name, "shell") {
        Some(str_in(input, "command", "?").to_owned())
    } else if same(tool_name, "grep") {
        let mut s = "/".to_owned();
        s.push_str(str_in(input, "pattern", "?"));
        s.push_str("/ in ");
        s.push_str(str_in(input, "path", "."));
        Some(s)
    } else if same(tool_name, "ls") {
        Some(str_in(input, "path", ".").to_owned())
    } else {
        clip(input.to_text().as_str(), 120)
    }
}

// ---------------------------------------------------------------------------
// Results
// ---------------------------------------------------------------------------

/// How many of `n` lines are shown.
pub open spec fn shown_lines(n: nat) -> nat {
    if n > DISPLAY_LINES {
        DISPLAY_LINES as nat
    } else {
        n
    }
}

/// How many lines are not shown.
pub open spec fn more_lines(n: nat) -> Seq<char> {
    "... ("@ + text::decimal((n - DISPLAY_LINES) as nat) + " more lines)"@
}

fn more_lines_of(n: usize) -> (r: String)
    requires
        n > DISPLAY_LINES,
    ensures
        r@ == more_lines(n as nat),
{
    let mut r = "... (".to_owned();
    r.push_str(decimal_of((n - DISPLAY_LINES) as u64).as_str());
    r.push_str(" more lines)");
    r
}

/// How wide the numbers of `n` lines are shown: two places at least.
pub open spec fn number_width(n: nat) -> nat {
    if text::decimal(n).len() < 2 {
        2
    } else {
        text::decimal(n).len()
    }
}

/// The lines of a file that are shown, numbered, with a note of the rest.
pub open spec fn file_lines(lines: Seq<Seq<char>>) -> Seq<Seq<char>> {
    let n = lines.len();
    let width = number_width(n);
    let shown = Seq::new(
        shown_lines(n),
        |i: int| text::pad_left(text::decimal((i + 1) as nat), width) + " │ "@ + lines[i],
    );
    if n > DISPLAY_LINES {
        shown.push(text::pad_left(""@, width) + "   "@ + more_lines(n))
    } else {
        shown
    }
}

/// The first lines of some, with a note of the rest.
pub open spec fn first_lines(lines: Seq<Seq<char>>) -> Seq<Seq<char>> {
    if lines.len() > DISPLAY_LINES {
        lines.take(DISPLAY_LINES as int).push(more_lines(lines.len()))
    } else {
        lines
    }
}

/// Some lines, each with a line break.
pub open spec fn broken(lines: Seq<Seq<char>>) -> Seq<char>
    decreases lines.len(),
{
    if lines.len() == 0 {
        Seq::empty()
    } else {
        broken(lines.drop_last()) + lines.last() + "\n"@
    }
}

/// What a command that was run shows.
pub open spec fn shell_display(result: json::JsonView) -> Seq<char> {
    let lines = text::lines(json::str_or(result, "stdout"@, ""@));
    let exit = match result.get("exit_code"@) {
        Some(doc) => match doc.as_i64() {
            Some(code) => if code != 0 {
                "[exit "@ + text::signed_decimal(code as int) + "] "@
            } else {
                Seq::empty()
            },
            None => Seq::empty(),
        },
        None => Seq::empty(),
    };
    let shown = exit + broken(lines.take(shown_lines(lines.len()) as int));
    text::trim_end(
        if lines.len() > DISPLAY_LINES {
            shown + more_lines(lines.len())
        } else {
            shown
        },
    )
}

/// The texts among some documents.
pub open spec fn texts_among(items: Seq<json::JsonView>) -> Seq<Seq<char>>
    decreases items.len(),
{
    if items.len() == 0 {
        Seq::empty()
    } else {
        let rest = texts_among(items.drop_last());
        match items.last() {
            json::JsonView::Str(s) => rest.push(s),
            _ => rest,
        }
    }
}

/// A tool's result as it is shown.
pub open spec fn result_summary(tool_name: Seq<char>, result: json::JsonView) -> Option<Seq<char>> {
    match result.get_str("error"@) {
        Some(err) => Some("[error] "@ + err),
        None => if tool_name == "file_read"@ {
            match result {
                json::JsonView::Str(content) => Some(
                    text::join(file_lines(text::lines(content)), "\n"@),
                ),
                _ => Some(json::json_text(result)),
            }
        } else if tool_name == "file_write"@ {
            match result {
                json::JsonView::Str(message) => Some(message),
                _ => Some("written"@),
            }
        } else if tool_name == "shell"@ {
            Some(shell_display(result))
        } else if tool_name == "grep"@ {
            match result {
                json::JsonView::Str(content) => Some(
                    text::join(first_lines(text::lines(content)), "\n"@),
                ),
                _ => Some(json::json_text(result)),
            }
        } else if tool_name == "ls"@ {
            match result {
                json::JsonView::Array(items) => Some(text::join(texts_among(items), "  "@)),
                json::JsonView::Str(s) => Some(s),
                _ => Some(json::json_text(result)),
            }
        } else {
            clipped(json::json_text(result), 500)
        },
    }
}

fn file_display(content: &str) -> (r: String)
    ensures
        r@ == text::join(file_lines(text::lines(content@)), "\n"@),
{
    let lines = lines_of(content);
    let ghost all = text::lines(content@);
    let n: usize = lines.len();
    assert(all.len() == n);
    let digits: usize = decimal_of(n as u64).as_str().unicode_len();
    let width: usize = if digits < 2 {
        2
    } else {
        digits
    };
    let ghost want = Seq::new(
        shown_lines(n as nat),
        |i: int|
            text::pad_left(text::decimal((i + 1) as nat), width as nat) + " │ "@ + all[i],
    );
    let mut out: Vec<String> = Vec::new();
    let mut i: usize = 0;
    assert(out.deep_view() =~= want.take(0));
    while i < n && i < DISPLAY_LINES
        invariant
            all == lines.deep_view(),
            i <= want.len() == shown_lines(n as nat),
            n == all.len() == lines@.len(),
            want == Seq::new(
                shown_lines(n as nat),
                |i: int|
                    text::pad_left(text::decimal((i + 1) as nat), width as nat) + " │ "@ + all[i],
            ),
            out.deep_view() == want.take(i as int),
        decreases n - i,
    {
        let ghost before = out.deep_view();
        let mut line = padded_left(decimal_of(i as u64 + 1).as_str(), width);
        line.push_str(" │ ");
        line.push_str(lines[i].as_str());
        out.push(line);
        assert(out.deep_view() =~= before.push(want[i as int]));
        assert(want.take(i + 1) =~= before.push(want[i as int]));
        i += 1;
    }
    assert(want.take(i as int) =~= want);
    if n > DISPLAY_LINES {
        let ghost before = out.deep_view();
        let mut line = padded_left("", width);
        line.push_str("   ");
        line.push_str(more_lines_of(n).as_str());
        let ghost said = line@;
        out.push(line);
        assert(out.deep_view() =~= before.push(said));
    }
    assert(out.deep_view() =~= file_lines(all));
    joined(&out, "\n")
}

fn lines_display(content: &str) -> (r: String)
    ensures
        r@ == text::join(first_lines(text::lines(content@)), "\n"@),
{
    let ghost all = text::lines(content@);
    let mut lines = lines_of(content);
    let n: usize = lines.len();
    assert(all.len() == n);
    if n > DISPLAY_LINES {
        lines.truncate(DISPLAY_LINES);
        assert(lines.deep_view() =~= all.take(DISPLAY_LINES as int));
        let ghost before = lines.deep_view();
        let line = more_lines_of(n);
        let ghost said = line@;
        lines.push(line);
        assert(lines.deep_view() =~= before.push(said));
    }
    joined(&lines, "\n")
}

fn shell_display_of(result: &Json) -> (r: String)
    ensures
        r@ == shell_display(result.deep_view()),
{
    let lines = lines_of(str_in(result, "stdout", ""));
    let ghost all = text::lines(json::str_or(result.deep_view(), "stdout"@, ""@));
    let n: usize = lines.len();
    assert(all.len() == n);
    let mut out = String::new();
    assert(out@ =~= Seq::empty());
    match result.get("exit_code") {
        Some(doc) => match doc.as_i64() {
            Some(code) => {
                if code != 0 {
                    out.push_str("[exit ");
                    out.push_str(signed_decimal_of(code).as_str());
                    out.push_str("] ");
                    assert(out@ =~= "[exit "@ + text::signed_decimal(code as int) + "] "@);
                }
            },
            None => {},
        },
        None => {},
    }
    let ghost exit = out@;
    let mut i: usize = 0;
    assert(out@ =~= exit + broken(all.take(0)));
    while i < n && i < DISPLAY_LINES
        invariant
            all == lines.deep_view(),
            n == all.len() == lines@.len(),
            i <= shown_lines(n as nat),
            out@ == exit + broken(all.take(i as int)),
        decreases n - i,
    {
        let ghost before = broken(all.take(i as int));
        assert(all.take(i + 1).drop_last() =~= all.take(i as int));
        out.push_str(lines[i].as_str());
        out.push_str("\n");
        assert(out@ =~= exit + (before + all[i as int] + "\n"@));
        i += 1;
    }
    if n > DISPLAY_LINES {
        out.push_str(more_lines_of(n).as_str());
    }
    trimmed_end(out.as_str())
}

fn texts_of(items: &Vec<Json>) -> (r: Vec<String>)
    ensures
        r.deep_view() == texts_among(json::json_items(items@)),
{
    let ghost all = json::json_items(items@);
    proof {
        json::lemma_json_items(items@);
    }
    let mut r: Vec<String> = Vec::new();
    let mut i: usize = 0;
    assert(r.deep_view() =~= Seq::empty());
    assert(all.take(0) =~= Seq::empty());
    while i < items.len()
        invariant
            all == json::json_items(items@),
            all.len() == items@.len(),
            forall|k: int| 0 <= k < all.len() ==> #[trigger] all[k] == items@[k].deep_view(),
            i <= all.len(),
            r.deep_view() == texts_among(all.take(i as int)),
        decreases all.len() - i,
    {
        let ghost before = r.deep_view();
        assert(all.take(i + 1).drop_last() =~= all.take(i as int));
        assert(all[i as int] == items@[i as int].deep_view());
        match &items[i] {
            Json::Str(s) => {
                r.push(s.clone());
                assert(r.deep_view() =~= before.push(s@));
            },
            _ => {},
        }
        i += 1;
    }
    assert(all.take(i as int) =~= all);
    r
}

/// A tool's result as it is shown. There is none where the document of an
/// unknown tool cannot be cut off.
pub fn format_tool_result(tool_name: &str, result: &Json) -> (r: Option<String>)
    ensures
        r.deep_view() == result_summary(tool_name@, result.deep_view()),
{
    match result.get_str("error") {
        Some(err) => {
            let mut s = "[error] ".to_owned();
            s.push_str(err);
            return Some(s);
        },
        None => {},
    }
    if same(tool_name, "file_read") {
        match result {
            Json::Str(content) => Some(file_display(content.as_str())),
            _ => Some(result.to_text()),
        }
    } else if same(tool_name, "file_write") {
        match result {
            Json::Str(message) => Some(message.clone()),
            _ => Some("written".to_owned()),
        }
    } else if same(tool_name, "shell") {
        Some(shell_display_of(result))
    } else if same(tool_name, "grep") {
        match result {
            Json::Str(content) => Some(lines_display(content.as_str())),
            _ => Some(result.to_text()),
        }
    } else if same(tool_name, "ls") {
        match result {
            Json::Array(items) => Some(joined(&texts_of(items), "  ")),
            Json::Str(s) => Some(s.clone()),
            _ => Some(result.to_text()),
        }
    } else {
        clip(result.to_text().as_str(), 500)
    }
}

// ---------------------------------------------------------------------------
// Laws
// ---------------------------------------------------------------------------

/// A short text is shown as it is. Of a longer one the beginning is shown, with a
/// mark that it goes on, or nothing where it cannot be cut there.
pub proof fn law_long_texts_are_cut(s: Seq<char>, n: nat)
    ensures
        text::byte_len(s) <= n ==> clipped(s, n) == Some(s),
        text::byte_len(s) > n && text::cuts_at(s, n as int) ==> clipped(s, n) == Some(
            text::cut(s, n as int) + "..."@,
        ),
        text::byte_len(s) > n && !text::cuts_at(s, n as int) ==> clipped(s, n) is None,
{
}

/// By these the words differ.
proof fn lemma_tool_words_differ()
    ensures
        "file_read"@.len() == 9,
        "file_write"@.len() == 10,
        "shell"@.len() == 5,
        "grep"@.len() == 4,
        "ls"@.len() == 2,
{
    reveal_strlit("file_read");
    reveal_strlit("file_write");
    reveal_strlit("shell");
    reveal_strlit("grep");
    reveal_strlit("ls");
}

/// What a call is about is what is shown of its input: the file of those that read
/// and write, the command of the shell, and the pattern and place of a search.
pub proof fn law_inputs_show_what_they_are_about(input: json::JsonView, offset: u64, limit: u64)
    ensures
        input.get_str("path"@) matches Some(path) ==> {
            &&& input.get_u64("offset"@) is None ==> input_summary("file_read"@, input) == Some(
                path,
            )
            &&& input.get_u64("offset"@) == Some(offset) && input.get_u64("limit"@) is None
                ==> input_summary("file_read"@, input) == Some(
                path + (" (from line "@ + text::decimal(offset as nat) + ")"@),
            )
            &&& input.get_u64("offset"@) == Some(offset) && input.get_u64("limit"@) == Some(limit)
                && offset + limit <= u64::MAX ==> input_summary("file_read"@, input) == Some(
                path + (" (lines "@ + text::decimal(offset as nat) + "-"@ + text::decimal(
                    (offset + limit) as nat,
                ) + ")"@),
            )
            &&& input_summary("ls"@, input) == Some(path)
            &&& input.get_str("content"@) matches Some(c) ==> input_summary("file_write"@, input)
                == Some(path + " ("@ + text::decimal(text::byte_len(c)) + " bytes)"@)
            &&& input.get_str("pattern"@) matches Some(p) ==> input_summary("grep"@, input) == Some(
                "/"@ + p + "/ in "@ + path,
            )
        },
        input.get_str("command"@) matches Some(command) ==> input_summary("shell"@, input) == Some(
            command,
        ),
        input.get_str("path"@) is None ==> input_summary("ls"@, input) == Some("."@),
{
    lemma_tool_words_differ();
    if let Some(path) = input.get_str("path"@) {
        assert(path + Seq::<char>::empty() =~= path);
    }
}

/// The document of a call of any other tool is shown, as far as 120 bytes, and that
/// of its result as far as 500.
pub proof fn law_other_documents_are_shown(name: Seq<char>, doc: json::JsonView)
    requires
        name != "file_read"@ && name != "file_write"@ && name != "shell"@,
        name != "grep"@ && name != "ls"@,
    ensures
        input_summary(name, doc) == clipped(json::json_text(doc), 120),
        doc.get_str("error"@) is None ==> result_summary(name, doc) == clipped(
            json::json_text(doc),
            500,
        ),
{
}

/// An error is shown as one, whatever the tool.
pub proof fn law_errors_are_shown(name: Seq<char>, result: json::JsonView, err: Seq<char>)
    requires
        result.get_str("error"@) == Some(err),
    ensures
        result_summary(name, result) == Some("[error] "@ + err),
{
}

/// The first lines of a file are shown in order, each behind its number, and how
/// many more there are.
pub proof fn law_files_show_their_first_lines(lines: Seq<Seq<char>>, i: int)
    requires
        0 <= i < lines.len(),
        i < 20,
    ensures
        ({
            let shown = file_lines(lines);
            let number = text::decimal((i + 1) as nat);
            &&& lines.len() <= 20 ==> shown.len() == lines.len()
            &&& lines.len() > 20 ==> shown.len() == 21 && text::contains_text(
                shown.last(),
                text::decimal((lines.len() - 20) as nat) + " more lines"@,
            )
            &&& text::contains_text(shown[i], number)
            &&& shown[i].len() >= lines[i].len()
            &&& shown[i].skip(shown[i].len() - lines[i].len()) == lines[i]
            &&& text::contains_text(shown[i], number + " │ "@ + lines[i])
        }),
        ({
            let shown = first_lines(lines);
            &&& shown[i] == lines[i]
            &&& lines.len() <= 20 ==> shown.len() == lines.len()
            &&& lines.len() > 20 ==> shown.len() == 21 && text::contains_text(
                shown.last(),
                text::decimal((lines.len() - 20) as nat) + " more lines"@,
            )
        }),
{
    lemma_numbered_line(lines[i], i, number_width(lines.len()));
    if lines.len() > 20 {
        lemma_rest_is_told(lines.len(), text::pad_left(""@, number_width(lines.len())) + "   "@);
    }
}

proof fn lemma_numbered_line(line: Seq<char>, i: int, width: nat)
    requires
        0 <= i,
    ensures
        ({
            let number = text::decimal((i + 1) as nat);
            let shown = text::pad_left(number, width) + " │ "@ + line;
            &&& text::contains_text(shown, number)
            &&& shown.len() >= line.len()
            &&& shown.skip(shown.len() - line.len()) == line
            &&& text::contains_text(shown, number + " │ "@ + line)
        }),
{
    let number = text::decimal((i + 1) as nat);
    let spaces = lemma_padded(number, width);
    lemma_behind_number(spaces, number, " │ "@, line);
}

proof fn lemma_padded(number: Seq<char>, width: nat) -> (spaces: Seq<char>)
    ensures
        text::pad_left(number, width) == spaces + number,
{
    text::law_padding_is_spaces_before(number, width);
    let padded = text::pad_left(number, width);
    let spaces = padded.take(padded.len() - number.len());
    let rest = padded.skip(padded.len() - number.len());
    assert(padded =~= spaces + rest);
    spaces
}

proof fn lemma_behind_number(
    spaces: Seq<char>,
    number: Seq<char>,
    bar: Seq<char>,
    line: Seq<char>,
)
    ensures
        ({
            let shown = spaces + number + bar + line;
            &&& text::contains_text(shown, number)
            &&& shown.len() >= line.len()
            &&& shown.skip(shown.len() - line.len()) == line
            &&& text::contains_text(shown, number + bar + line)
        }),
{
    let shown = spaces + number + bar + line;
    lemma_ends_with(spaces + number + bar, line);
    lemma_regrouped(spaces, number, bar, line);
    text::lemma_contained_between(spaces, number, bar + line);
    text::lemma_contained_between(spaces, number + bar + line, Seq::empty());
}

proof fn lemma_ends_with(before: Seq<char>, line: Seq<char>)
    ensures
        (before + line).len() >= line.len(),
        (before + line).skip((before + line).len() - line.len()) == line,
{
    assert((before + line).skip(before.len() as int) =~= line);
}

proof fn lemma_regrouped(a: Seq<char>, b: Seq<char>, c: Seq<char>, d: Seq<char>)
    ensures
        a + b + c + d == a + b + (c + d),
        a + b + c + d == a + (b + c + d) + Seq::empty(),
{
    assert(a + b + c + d =~= a + b + (c + d));
    assert(a + b + c + d =~= a + (b + c + d) + Seq::empty());
}

proof fn lemma_rest_is_told(n: nat, before: Seq<char>)
    requires
        n > 20,
    ensures
        text::contains_text(more_lines(n), text::decimal((n - 20) as nat) + " more lines"@),
        text::contains_text(before + more_lines(n), text::decimal((n - 20) as nat) + " more lines"@),
{
    reveal_strlit(" more lines)");
    reveal_strlit(" more lines");
    reveal_strlit(")");
    assert(" more lines)"@ =~= " more lines"@ + ")"@);
    let rest = text::decimal((n - 20) as nat) + " more lines"@;
    let note = "... ("@ + rest + ")"@;
    assert(more_lines(n) =~= note);
    text::lemma_contained_between("... ("@, rest, ")"@);
    text::lemma_contained_between(before, note, Seq::empty());
    assert(before + note + Seq::empty() =~= before + note);
    text::lemma_contained_in_part(before + note, note, rest);
}

/// What a command wrote is shown line by line, in order, behind its exit code where
/// that says that it failed.
pub proof fn law_commands_show_their_output(
    result: json::JsonView,
    out: Seq<char>,
    code: i64,
    a: Seq<Seq<char>>,
    b: Seq<Seq<char>>,
)
    requires
        result.get_str("stdout"@) == Some(out),
        result.get("exit_code"@) == Some(json::json_int(code)),
        text::lines(out).len() <= 20,
    ensures
        code == 0 ==> shell_display(result) == text::trim_end(broken(text::lines(out))),
        code != 0 ==> shell_display(result) == text::trim_end(
            "[exit "@ + text::signed_decimal(code as int) + "] "@ + broken(text::lines(out)),
        ),
        broken(a + b) == broken(a) + broken(b),
        forall|line: Seq<char>| #[trigger] broken(seq![line]) == line + "\n"@,
{
    let lines = text::lines(out);
    assert(lines.take(lines.len() as int) =~= lines);
    assert(Seq::<char>::empty() + broken(lines) =~= broken(lines));
    lemma_broken(a, b);
    assert forall|line: Seq<char>| #[trigger] broken(seq![line]) == line + "\n"@ by {
        reveal_with_fuel(broken, 2);
        assert(seq![line].drop_last() =~= Seq::empty());
        assert(broken(seq![line]) =~= line + "\n"@);
    }
}

proof fn lemma_broken(a: Seq<Seq<char>>, b: Seq<Seq<char>>)
    ensures
        broken(a + b) == broken(a) + broken(b),
    decreases b.len(),
{
    if b.len() == 0 {
        assert(a + b =~= a);
        assert(broken(a) + broken(b) =~= broken(a));
    } else {
        assert((a + b).drop_last() =~= a + b.drop_last());
        lemma_broken(a, b.drop_last());
        assert(broken(a + b) =~= broken(a) + broken(b));
    }
}

/// A file is shown with its lines, a search with its first lines, and a listing
/// with its names in order.
pub proof fn law_results_are_shown(t: Seq<char>, items: Seq<json::JsonView>, more: json::JsonView)
    ensures
        result_summary("file_read"@, json::JsonView::Str(t)) == Some(
            text::join(file_lines(text::lines(t)), "\n"@),
        ),
        result_summary("grep"@, json::JsonView::Str(t)) == Some(
            text::join(first_lines(text::lines(t)), "\n"@),
        ),
        result_summary("file_write"@, json::JsonView::Str(t)) == Some(t),
        result_summary("ls"@, json::JsonView::Str(t)) == Some(t),
        result_summary("ls"@, json::JsonView::Array(items)) == Some(
            text::join(texts_among(items), "  "@),
        ),
        texts_among(items.push(more)) == (match more {
            json::JsonView::Str(s) => texts_among(items).push(s),
            _ => texts_among(items),
        }),
{
    lemma_tool_words_differ();
    assert(items.push(more).drop_last() =~= items);
}

} // verus!
