//! Reading the one shell command out of a reply of `fx ask --json`.
//!
//! The reply is a JSON envelope `{"output": ..., "exit_code": ...}`. The
//! output is the model's text, which may sit in a Markdown fence and may be
//! either the bare command or the JSON object `{"command": "..."}`. The
//! command is folded onto one line and checked before it is handed back.
use crate::json::{
    as_i64, as_text, json_of, json_parse, map_get, map_len, member, parse_value, value_as_i64,
    value_as_object, value_as_str, value_get, JsonValue,
};
use crate::text::{
    any_control, blank, chars_of, contains, ends_with, find, find_char, has_control, has_prefix,
    has_suffix, includes, is_whitespace, join, joined, lemma_blank_lines, lemma_join_concat,
    lemma_nonblank_concat, lemma_replace_absent, lemma_replace_end, lemma_replace_split,
    lemma_split_concat, lemma_split_one_line, nonblank, nonblank_lines, nonblank_pieces,
    occurs_at, replace, replaced, slice, split_char, split_on, starts_with, string_of, trim,
    trimmed, utf8_len, utf8_longer_than,
};
use vstd::prelude::*;

verus! {

/// The largest command, in UTF-8 bytes, that is accepted.
pub const MAX_COMMAND_BYTES: usize = 8192;

/// Why a reply was refused; the field is the message shown to the user.
#[derive(Debug)]
pub struct InvalidResponse(pub &'static str);

/// A Markdown code fence.
pub open spec fn fence() -> Seq<char> {
    seq!['`', '`', '`']
}

/// `output`, trimmed; where its first line opens a Markdown fence and the rest
/// ends with one, the trimmed text between the fences.
pub open spec fn spec_unfence(output: Seq<char>) -> Seq<char> {
    let t = trim(output);
    match find(t, '\n') {
        None => t,
        Some(i) => {
            let header = t.take(i);
            let body = t.skip(i + 1);
            if starts_with(header, fence()) && ends_with(body, fence()) {
                trim(body.take(body.len() - 3))
            } else {
                t
            }
        },
    }
}

/// The command in the model's text: the text itself where it is no JSON and
/// does not look like broken JSON, markup or a fence; the string member
/// `command` where the text is a JSON object of that one member.
pub open spec fn spec_model_command(output: Seq<char>) -> Result<Seq<char>, Seq<char>> {
    match json_parse(output) {
        None => if starts_with(output, seq!['{']) || starts_with(output, seq!['['])
            || contains(output, seq!['<', '/']) || contains(output, fence()) {
            Err("model returned invalid output"@)
        } else {
            Ok(output)
        },
        Some(JsonValue::Object(members)) => if members.dom().len() != 1 {
            Err("model returned unexpected fields"@)
        } else if members.dom().contains("command"@) && as_text(members["command"@]) is Some {
            Ok(as_text(members["command"@])->0)
        } else {
            Err("model returned no command"@)
        },
        Some(_) => Err("model returned invalid JSON"@),
    }
}

/// The command on one line: escaped newlines become spaces, and the nonblank
/// lines, trimmed, are joined by ` && `.
pub open spec fn spec_one_line(command: Seq<char>) -> Seq<char> {
    let unescaped = replace(
        replace(command, seq!['\\', '\r', '\n'], seq![' ']),
        seq!['\\', '\n'],
        seq![' '],
    );
    join(nonblank_lines(unescaped), seq![' ', '&', '&', ' '])
}

/// The checks on the final command. It is trimmed and, being nonblank, it is
/// one line exactly when it holds no control character (a line break is one).
pub open spec fn spec_accept(command: Seq<char>) -> Result<Seq<char>, Seq<char>> {
    if command.len() == 0 {
        Err("fx returned a blank command"@)
    } else if has_control(command) {
        Err("fx returned more than one line"@)
    } else if utf8_len(command) > MAX_COMMAND_BYTES {
        Err("fx returned an oversized command"@)
    } else {
        Ok(command)
    }
}

/// The `exit_code` member of the envelope, as an `i64`.
pub open spec fn exit_code(envelope: JsonValue) -> Option<i64> {
    match member(envelope, "exit_code"@) {
        Some(code) => as_i64(code),
        None => None,
    }
}

/// The text of the `output` member of the envelope.
pub open spec fn output_text(envelope: JsonValue) -> Option<Seq<char>> {
    match member(envelope, "output"@) {
        Some(output) => as_text(output),
        None => None,
    }
}

/// The text of the `output` member of an `fx` reply, once the reply is known
/// to be JSON with exit code 0.
pub open spec fn spec_envelope(raw: Seq<char>) -> Result<Seq<char>, Seq<char>> {
    envelope_reply(json_parse(raw))
}

/// The text of the `output` member of a parsed `fx` reply (`None` where the
/// reply is not JSON), once its exit code is 0.
pub open spec fn envelope_reply(parsed: Option<JsonValue>) -> Result<Seq<char>, Seq<char>> {
    match parsed {
        None => Err("fx returned invalid JSON"@),
        Some(envelope) => if exit_code(envelope) != Some(0i64) {
            Err("fx request failed"@)
        } else {
            match output_text(envelope) {
                None => Err("fx returned no command"@),
                Some(output) => Ok(output),
            }
        },
    }
}

/// The command in the model's text, unfenced, on one line and checked.
pub open spec fn spec_command(output: Seq<char>) -> Result<Seq<char>, Seq<char>> {
    match spec_model_command(spec_unfence(output)) {
        Err(message) => Err(message),
        Ok(command) => spec_accept(trim(spec_one_line(command))),
    }
}

/// What `parse` gives for a reply: the command, or the message of the error.
pub open spec fn spec_parse(raw: Seq<char>) -> Result<Seq<char>, Seq<char>> {
    match spec_envelope(raw) {
        Err(message) => Err(message),
        Ok(output) => spec_command(output),
    }
}

/// A result of characters by its view.
pub open spec fn chars_result(r: Result<Vec<char>, InvalidResponse>) -> Result<
    Seq<char>,
    Seq<char>,
> {
    match r {
        Ok(v) => Ok(v@),
        Err(e) => Err(e.0@),
    }
}

/// A result of text by its view.
pub open spec fn string_result(r: Result<String, InvalidResponse>) -> Result<
    Seq<char>,
    Seq<char>,
> {
    match r {
        Ok(s) => Ok(s@),
        Err(e) => Err(e.0@),
    }
}

/// The command in an `fx` reply, or why there is none.
pub fn parse(raw: &str) -> (r: Result<String, InvalidResponse>)
    ensures
        string_result(r) == spec_parse(raw@),
{
    match envelope(raw) {
        Err(error) => Err(error),
        Ok(output) => command(output.as_str()),
    }
}

/// The model's text in an `fx` reply.
pub fn envelope(raw: &str) -> (r: Result<String, InvalidResponse>)
    ensures
        string_result(r) == spec_envelope(raw@),
{
    envelope_of(parse_value(raw))
}

/// The model's text in a parsed `fx` reply (`None` where the reply is not
/// JSON).
pub fn envelope_of(parsed: Option<serde_json::Value>) -> (r: Result<String, InvalidResponse>)
    ensures
        string_result(r) == envelope_reply(
            match parsed {
                Some(v) => Some(json_of(v)),
                None => None,
            },
        ),
{
    let envelope = match parsed {
        Some(envelope) => envelope,
        None => return Err(InvalidResponse("fx returned invalid JSON")),
    };
    let code = match value_get(&envelope, "exit_code") {
        Some(code) => value_as_i64(code),
        None => None,
    };
    match code {
        Some(0) => {},
        _ => return Err(InvalidResponse("fx request failed")),
    }
    match value_get(&envelope, "output") {
        Some(output) => match value_as_str(output) {
            Some(text) => Ok(text.to_owned()),
            None => Err(InvalidResponse("fx returned no command")),
        },
        None => Err(InvalidResponse("fx returned no command")),
    }
}

/// The command in the model's text, on one line and checked.
pub fn command(output: &str) -> (r: Result<String, InvalidResponse>)
    ensures
        string_result(r) == spec_command(output@),
{
    let output = chars_of(output);
    let command = match model_command(&unfence(&output)) {
        Ok(command) => command,
        Err(error) => return Err(error),
    };
    let command = trimmed(&one_line(&command));
    if command.len() == 0 {
        return Err(InvalidResponse("fx returned a blank command"));
    }
    if any_control(&command) {
        return Err(InvalidResponse("fx returned more than one line"));
    }
    if utf8_longer_than(&command, MAX_COMMAND_BYTES) {
        return Err(InvalidResponse("fx returned an oversized command"));
    }
    Ok(string_of(&command))
}

/// The command in the model's text.
fn model_command(output: &Vec<char>) -> (r: Result<Vec<char>, InvalidResponse>)
    ensures
        chars_result(r) == spec_model_command(output@),
{
    let text = string_of(output);
    let payload = match parse_value(text.as_str()) {
        Some(payload) => payload,
        None => {
            let open_brace = vec!['{'];
            let open_bracket = vec!['['];
            let closing_tag = vec!['<', '/'];
            let fence = vec!['`', '`', '`'];
            assert(open_brace@ =~= seq!['{']);
            assert(open_bracket@ =~= seq!['[']);
            assert(closing_tag@ =~= seq!['<', '/']);
            assert(fence@ =~= seq!['`', '`', '`']);
            if has_prefix(output, &open_brace) || has_prefix(output, &open_bracket) || includes(
                output,
                &closing_tag,
            ) || includes(output, &fence) {
                return Err(InvalidResponse("model returned invalid output"));
            }
            return Ok(output.clone());
        },
    };
    let object = match value_as_object(&payload) {
        Some(object) => object,
        None => return Err(InvalidResponse("model returned invalid JSON")),
    };
    if map_len(object) != 1 {
        return Err(InvalidResponse("model returned unexpected fields"));
    }
    match map_get(object, "command") {
        Some(command) => match value_as_str(command) {
            Some(command) => Ok(chars_of(command)),
            None => Err(InvalidResponse("model returned no command")),
        },
        None => Err(InvalidResponse("model returned no command")),
    }
}

/// The command folded onto one line.
fn one_line(command: &Vec<char>) -> (r: Vec<char>)
    ensures
        r@ == spec_one_line(command@),
{
    let escaped_crlf = vec!['\\', '\r', '\n'];
    let escaped_lf = vec!['\\', '\n'];
    let space = vec![' '];
    let unescaped = replaced(&replaced(command, &escaped_crlf, &space), &escaped_lf, &space);
    let lines = nonblank_pieces(&split_char(&unescaped, '\n'));
    let separator = vec![' ', '&', '&', ' '];
    assert(escaped_crlf@ =~= seq!['\\', '\r', '\n']);
    assert(escaped_lf@ =~= seq!['\\', '\n']);
    assert(space@ =~= seq![' ']);
    assert(separator@ =~= seq![' ', '&', '&', ' ']);
    joined(&lines, &separator)
}

/// The model's text without a surrounding Markdown fence.
fn unfence(output: &Vec<char>) -> (r: Vec<char>)
    ensures
        r@ == spec_unfence(output@),
{
    let output = trimmed(output);
    let newline = match find_char(&output, '\n') {
        Some(i) => i,
        None => return output,
    };
    let header = slice(&output, 0, newline);
    let body = slice(&output, newline + 1, output.len());
    assert(header@ == output@.take(newline as int));
    assert(body@ == output@.skip(newline + 1));
    let fence = vec!['`', '`', '`'];
    assert(fence@ =~= seq!['`', '`', '`']);
    if has_prefix(&header, &fence) && has_suffix(&body, &fence) {
        trimmed(&slice(&body, 0, body.len() - 3))
    } else {
        output
    }
}

/// The model's text, trimmed and without a surrounding Markdown fence.
pub fn unfenced(output: &str) -> (r: String)
    ensures
        r@ == spec_unfence(output@),
{
    string_of(&unfence(&chars_of(output)))
}

/// A command that `parse` accepts is nonblank, trimmed, on one line (it
/// holds no control character, a line break among them) and at most
/// `MAX_COMMAND_BYTES` bytes long.
pub proof fn accepted_commands_are_one_line(raw: Seq<char>)
    ensures
        spec_parse(raw) matches Ok(c) ==> c.len() > 0 && !has_control(c) && utf8_len(c)
            <= MAX_COMMAND_BYTES && trim(c) == c,
{
    if let Ok(c) = spec_parse(raw) {
        let output = spec_envelope(raw)->Ok_0;
        let command = spec_model_command(spec_unfence(output))->Ok_0;
        crate::text::lemma_trim_idempotent(spec_one_line(command));
    }
}

/// The command with its continued lines joined: a backslash right before a
/// line break (`\n` or `\r\n`) becomes a space.
pub open spec fn unescaped(command: Seq<char>) -> Seq<char> {
    replace(replace(command, seq!['\\', '\r', '\n'], seq![' ']), seq!['\\', '\n'], seq![' '])
}

/// The text ends with a backslash that would continue its last line onto a
/// line after it: a final `\` or `\` and `\r`.
pub open spec fn ends_continued(x: Seq<char>) -> bool {
    ||| x.len() > 0 && x.last() == '\\'
    ||| x.len() > 1 && x[x.len() - 2] == '\\' && x.last() == '\r'
}

/// A command of one line, whatever blanks surround it, is that line trimmed.
pub proof fn a_line_is_trimmed(a: Seq<char>)
    requires
        !a.contains('\n'),
    ensures
        spec_one_line(a) == trim(a),
{
    lemma_replace_absent(a, seq!['\\', '\r', '\n'], seq![' '], 2);
    lemma_replace_absent(a, seq!['\\', '\n'], seq![' '], 1);
    lemma_split_one_line(a);
    let lines = nonblank(seq![a]);
    assert(seq![a].drop_last() =~= Seq::<Seq<char>>::empty());
    assert(nonblank(Seq::<Seq<char>>::empty()) == Seq::<Seq<char>>::empty());
    assert(seq![a].last() == a);
    if trim(a).len() > 0 {
        assert(lines =~= seq![trim(a)]);
    } else {
        assert(lines =~= Seq::<Seq<char>>::empty());
        assert(trim(a) =~= Seq::<char>::empty());
    }
}

/// A character other than a backslash opening a text is kept, and the rest
/// is unescaped alone.
proof fn lemma_unescape_after(c: char, y: Seq<char>, pat: Seq<char>)
    requires
        pat.len() >= 2,
        pat[0] == '\\',
        c != '\\',
    ensures
        replace(seq![c] + y, pat, seq![' ']) == seq![c] + replace(y, pat, seq![' ']),
{
    let n = seq![c];
    assert forall|i: int| 0 <= i < n.len() && i + pat.len() > n.len() implies !occurs_at(
        n + y,
        pat,
        i,
    ) by {
        if occurs_at(n + y, pat, i) {
            assert((n + y).subrange(i, i + pat.len())[0] == (n + y)[i]);
        }
    }
    lemma_replace_split(n, y, pat, seq![' ']);
}

/// Where the first part does not end with a continuing backslash, two parts
/// joined by a line break are unescaped each on its own.
proof fn lemma_unescape_concat(x: Seq<char>, y: Seq<char>)
    requires
        !ends_continued(x),
    ensures
        unescaped(x + seq!['\n'] + y) == unescaped(x) + seq!['\n'] + unescaped(y),
{
    let n = seq!['\n'];
    let crlf = seq!['\\', '\r', '\n'];
    let lf = seq!['\\', '\n'];
    let space = seq![' '];
    let s = x + (n + y);
    assert(x + n + y =~= s);
    assert forall|i: int| 0 <= i < x.len() && i + crlf.len() > x.len() implies !occurs_at(
        s,
        crlf,
        i,
    ) by {
        if occurs_at(s, crlf, i) {
            let w = s.subrange(i, i + 3);
            assert(w[0] == s[i] && w[1] == s[i + 1] && w[2] == s[i + 2]);
            if i == x.len() - 1 {
                assert(s[i + 1] == '\n');
            } else {
                assert(i == x.len() - 2);
                assert(s[i] == x[x.len() - 2] && s[i + 1] == x.last());
            }
        }
    }
    lemma_replace_split(x, n + y, crlf, space);
    lemma_unescape_after('\n', y, crlf);
    let x1 = replace(x, crlf, space);
    let y1 = replace(y, crlf, space);
    lemma_replace_end(x, crlf, space, '\\');
    let s1 = x1 + (n + y1);
    assert(replace(s, crlf, space) =~= s1);
    assert forall|i: int| 0 <= i < x1.len() && i + lf.len() > x1.len() implies !occurs_at(
        s1,
        lf,
        i,
    ) by {
        if occurs_at(s1, lf, i) {
            let w = s1.subrange(i, i + 2);
            assert(w[0] == s1[i]);
            assert(s1[i] == x1.last());
        }
    }
    lemma_replace_split(x1, n + y1, lf, space);
    lemma_unescape_after('\n', y1, lf);
    assert(unescaped(x + n + y) =~= replace(x1, lf, space) + n + replace(y1, lf, space));
}

/// Two texts joined by a line break have the nonblank lines of each.
proof fn lemma_lines_concat(x: Seq<char>, y: Seq<char>)
    ensures
        nonblank_lines(x + seq!['\n'] + y) == nonblank_lines(x) + nonblank_lines(y),
{
    lemma_split_concat(x, y);
    lemma_nonblank_concat(split_on(x, '\n'), split_on(y, '\n'));
}

/// A blank text holds no backslash and is its own unescaping.
proof fn lemma_blank_unescaped(g: Seq<char>)
    requires
        blank(g),
    ensures
        unescaped(g) == g,
        !ends_continued(g),
{
    if g.contains('\\') {
        let k = choose|k: int| 0 <= k < g.len() && g[k] == '\\';
        assert(is_whitespace(g[k]));
    }
    if g.len() > 0 {
        assert(is_whitespace(g[g.len() - 1]));
    }
    if g.len() > 1 {
        assert(is_whitespace(g[g.len() - 2]));
    }
    lemma_replace_absent(g, seq!['\\', '\r', '\n'], seq![' '], 0);
    lemma_replace_absent(g, seq!['\\', '\n'], seq![' '], 0);
}

/// Blank lines fall away: lines of nothing but white space between two parts
/// of a command, after its first part or before its last change nothing
/// (where the first part does not end with a backslash that continues it
/// onto the blank line).
pub proof fn blank_lines_fall_away(x: Seq<char>, g: Seq<char>, y: Seq<char>)
    requires
        !ends_continued(x),
        blank(g),
    ensures
        spec_one_line(x + seq!['\n'] + g + seq!['\n'] + y) == spec_one_line(x + seq!['\n'] + y),
        spec_one_line(x + seq!['\n'] + g) == spec_one_line(x),
        spec_one_line(g + seq!['\n'] + y) == spec_one_line(y),
{
    let n = seq!['\n'];
    lemma_blank_unescaped(g);
    lemma_blank_lines(g);
    let ux = unescaped(x);
    let uy = unescaped(y);
    let front = x + n + g;
    assert(!ends_continued(front)) by {
        if g.len() > 1 {
            assert(front[front.len() - 2] == g[g.len() - 2]);
            assert(front.last() == g.last());
        } else if g.len() == 1 {
            assert(front[front.len() - 2] == '\n');
        } else {
            assert(front.last() == '\n');
        }
    }
    lemma_unescape_concat(front, y);
    lemma_unescape_concat(x, g);
    lemma_unescape_concat(x, y);
    lemma_unescape_concat(g, y);
    lemma_lines_concat(ux + n + g, uy);
    lemma_lines_concat(ux, g);
    lemma_lines_concat(ux, uy);
    lemma_lines_concat(g, uy);
    let none = Seq::<Seq<char>>::empty();
    assert(nonblank_lines(ux) + none =~= nonblank_lines(ux));
    assert(none + nonblank_lines(uy) =~= nonblank_lines(uy));
}

/// Two parts of a command on lines of their own are chained with ` && `
/// (where the first does not end with a backslash that continues it onto
/// the second, and neither folds to nothing).
pub proof fn lines_are_chained(x: Seq<char>, y: Seq<char>)
    requires
        !ends_continued(x),
        spec_one_line(x).len() > 0,
        spec_one_line(y).len() > 0,
    ensures
        spec_one_line(x + seq!['\n'] + y) == spec_one_line(x) + " && "@ + spec_one_line(y),
{
    reveal_strlit(" && ");
    lemma_unescape_concat(x, y);
    lemma_lines_concat(unescaped(x), unescaped(y));
    let sep = seq![' ', '&', '&', ' '];
    assert(" && "@ =~= sep);
    lemma_join_concat(nonblank_lines(unescaped(x)), nonblank_lines(unescaped(y)), sep);
}

/// A command whose nonblank lines are `a` and `b`, with or without blank
/// lines between them, is `a` and `b` trimmed and chained with ` && `; a
/// command of one nonblank line and blank lines after it is that line,
/// trimmed (where `a` does not end with a backslash that continues it).
pub proof fn commands_are_their_nonblank_lines(a: Seq<char>, g: Seq<char>, b: Seq<char>)
    requires
        !a.contains('\n'),
        !b.contains('\n'),
        !ends_continued(a),
        trim(a).len() > 0,
        trim(b).len() > 0,
        blank(g),
    ensures
        spec_one_line(a + seq!['\n'] + g + seq!['\n'] + b) == trim(a) + " && "@ + trim(b),
        spec_one_line(a + seq!['\n'] + b) == trim(a) + " && "@ + trim(b),
        spec_one_line(a + seq!['\n'] + g) == trim(a),
{
    a_line_is_trimmed(a);
    a_line_is_trimmed(b);
    blank_lines_fall_away(a, g, b);
    lines_are_chained(a, b);
}

/// The unescaping of a text that opens with a continued line break (`mid`
/// being a backslash and `\n` or `\r\n`) or with a space: one space, then
/// the rest unescaped alone.
proof fn lemma_unescape_joined(x: Seq<char>, mid: Seq<char>, y: Seq<char>)
    requires
        mid == seq!['\\', '\n'] || mid == seq!['\\', '\r', '\n'] || mid == seq![' '],
    ensures
        unescaped(x + mid + y) == unescaped(x) + seq![' '] + unescaped(y),
{
    let crlf = seq!['\\', '\r', '\n'];
    let lf = seq!['\\', '\n'];
    let space = seq![' '];
    let s = x + (mid + y);
    assert(x + mid + y =~= s);
    assert forall|i: int| 0 <= i < x.len() && i + crlf.len() > x.len() implies !occurs_at(
        s,
        crlf,
        i,
    ) by {
        if occurs_at(s, crlf, i) {
            let w = s.subrange(i, i + 3);
            assert(w[1] == s[i + 1] && w[2] == s[i + 2]);
            if i == x.len() - 1 {
                assert(s[i + 1] == mid[0]);
            } else {
                assert(s[i + 2] == mid[0]);
            }
        }
    }
    lemma_replace_split(x, mid + y, crlf, space);
    let x1 = replace(x, crlf, space);
    let y1 = replace(y, crlf, space);
    let m1 = if mid == crlf { space } else { mid };
    if mid == crlf {
        assert((mid + y).take(3) =~= crlf);
        assert((mid + y).skip(3) =~= y);
    } else if mid == lf {
        assert forall|i: int| 0 <= i < mid.len() && i + crlf.len() > mid.len() implies !occurs_at(
            mid + y,
            crlf,
            i,
        ) by {
            if occurs_at(mid + y, crlf, i) {
                let w = (mid + y).subrange(i, i + 3);
                assert(w[0] == (mid + y)[i] && w[1] == (mid + y)[i + 1]);
            }
        }
        lemma_replace_split(mid, y, crlf, space);
        assert(replace(mid, crlf, space) == mid);
    } else {
        lemma_unescape_after(' ', y, crlf);
    }
    assert(replace(s, crlf, space) =~= x1 + (m1 + y1));
    let s1 = x1 + (m1 + y1);
    assert forall|i: int| 0 <= i < x1.len() && i + lf.len() > x1.len() implies !occurs_at(
        s1,
        lf,
        i,
    ) by {
        if occurs_at(s1, lf, i) {
            let w = s1.subrange(i, i + 2);
            assert(w[1] == s1[i + 1]);
            assert(s1[i + 1] == m1[0]);
        }
    }
    lemma_replace_split(x1, m1 + y1, lf, space);
    if m1 == lf {
        assert((m1 + y1).take(2) =~= lf);
        assert((m1 + y1).skip(2) =~= y1);
    } else {
        assert(m1 =~= space);
        lemma_unescape_after(' ', y1, lf);
    }
    assert(unescaped(x + mid + y) =~= replace(x1, lf, space) + space + replace(y1, lf, space));
}

/// A backslash at the end of a line continues it onto the next: the
/// backslash and the line break (`\n` or `\r\n`) read as one space.
pub proof fn continued_lines_are_joined(x: Seq<char>, y: Seq<char>)
    ensures
        spec_one_line(x + seq!['\\', '\n'] + y) == spec_one_line(x + seq![' '] + y),
        spec_one_line(x + seq!['\\', '\r', '\n'] + y) == spec_one_line(x + seq![' '] + y),
{
    lemma_unescape_joined(x, seq!['\\', '\n'], y);
    lemma_unescape_joined(x, seq!['\\', '\r', '\n'], y);
    lemma_unescape_joined(x, seq![' '], y);
}

} // verus!
