//! The launch agent that keeps `fx-agent` running: its property list, and
//! the escaping of the values written into it.
use crate::text::{chars_of, concat, replace, replaced, string_of};
use vstd::prelude::*;

verus! {

/// The launchd label of the agent.
pub const LABEL: &'static str = "com.dineshteja.fx-agent";

/// The launch agent up to its label.
pub const AGENT_OPEN: &'static str = "<?xml version=\"1.0\" encoding=\"UTF-8\"?>\n<!DOCTYPE plist PUBLIC \"-//Apple//DTD PLIST 1.0//EN\" \"http://www.apple.com/DTDs/PropertyList-1.0.dtd\">\n<plist version=\"1.0\">\n<dict>\n  <key>Label</key>\n  <string>";
/// The launch agent from its label to the executable it runs.
pub const OLD_ARGS: &'static str = "</string>\n  <key>ProgramArguments</key>\n  <array>\n    <string>";
/// The launch agent from the executable to the value of `HOME`.
pub const OLD_ENV: &'static str = "</string>\n    <string>run</string>\n  </array>\n  <key>EnvironmentVariables</key>\n  <dict>\n    <key>HOME</key>\n    <string>";
/// The text between the values of `HOME` and `PATH`.
pub const PATH_KEY: &'static str = "</string>\n    <key>PATH</key>\n    <string>";
/// The launch agent from `PATH` to the path of its output log.
pub const OLD_REST: &'static str = "</string>\n  </dict>\n  <key>RunAtLoad</key>\n  <true/>\n  <key>KeepAlive</key>\n  <dict>\n    <key>SuccessfulExit</key>\n    <false/>\n  </dict>\n  <key>ThrottleInterval</key>\n  <integer>5</integer>\n  <key>ProcessType</key>\n  <string>Background</string>\n  <key>LimitLoadToSessionType</key>\n  <string>Aqua</string>\n  <key>StandardOutPath</key>\n  <string>";
/// The text between the output log and the error log.
pub const ERR_LOG: &'static str = "</string>\n  <key>StandardErrorPath</key>\n  <string>";
/// The end of a property list after the last value.
pub const CLOSE: &'static str = "</string>\n</dict>\n</plist>\n";

/// The value with the five XML special characters written as entities, `&`
/// first so that no entity is escaped twice.
pub open spec fn spec_escape(value: Seq<char>) -> Seq<char> {
    let amp = replace(value, "&"@, "&amp;"@);
    let lt = replace(amp, "<"@, "&lt;"@);
    let gt = replace(lt, ">"@, "&gt;"@);
    let quot = replace(gt, "\""@, "&quot;"@);
    replace(quot, "'"@, "&apos;"@)
}

/// Escapes a value for a property list.
pub fn escape(value: &str) -> (s: String)
    ensures
        s@ == spec_escape(value@),
{
    let amp = replaced(&chars_of(value), &chars_of("&"), &chars_of("&amp;"));
    let lt = replaced(&amp, &chars_of("<"), &chars_of("&lt;"));
    let gt = replaced(&lt, &chars_of(">"), &chars_of("&gt;"));
    let quot = replaced(&gt, &chars_of("\""), &chars_of("&quot;"));
    string_of(&replaced(&quot, &chars_of("'"), &chars_of("&apos;")))
}

/// `Path::join`: an absolute path replaces the base; a relative one is
/// appended, with a `/` between unless the base is empty or already ends with
/// one.
pub open spec fn path_join(base: Seq<char>, relative: Seq<char>) -> Seq<char> {
    if relative.len() > 0 && relative[0] == '/' {
        relative
    } else if base.len() == 0 {
        relative
    } else if base.last() == '/' {
        base + relative
    } else {
        base + "/"@ + relative
    }
}

/// `Path::join` of two paths.
pub fn join_path(base: &str, relative: &str) -> (s: String)
    ensures
        s@ == path_join(base@, relative@),
{
    let b = chars_of(base);
    let r = chars_of(relative);
    if r.len() > 0 && r[0] == '/' {
        string_of(&r)
    } else if b.len() == 0 {
        string_of(&r)
    } else if b[b.len() - 1] == '/' {
        string_of(&concat(&b, &r))
    } else {
        string_of(&concat(&concat(&b, &chars_of("/")), &r))
    }
}

/// The `PATH` given to the agent: the user's tool directories, then the
/// system ones.
pub open spec fn search_path(home: Seq<char>) -> Seq<char> {
    home + "/.local/bin:"@ + home
        + "/.cargo/bin:/opt/homebrew/bin:/usr/local/bin:/usr/bin:/bin:/usr/sbin:/sbin"@
}

/// The `PATH` given to the agent.
pub fn search_path_of(home: &str) -> (s: String)
    ensures
        s@ == search_path(home@),
{
    let h = chars_of(home);
    let text = concat(
        &concat(&concat(&h, &chars_of("/.local/bin:")), &h),
        &chars_of("/.cargo/bin:/opt/homebrew/bin:/usr/local/bin:/usr/bin:/bin:/usr/sbin:/sbin"),
    );
    string_of(&text)
}

/// The property list of a launch agent that runs `binary run` in the
/// background, with `HOME` and `PATH` set, restarts it after a failure, and
/// logs to `agent.log` in `state`.
pub open spec fn spec_plist_contents(binary: Seq<char>, home: Seq<char>, state: Seq<char>) -> Seq<
    char,
> {
    let log = spec_escape(path_join(state, "agent.log"@));
    AGENT_OPEN@ + LABEL@ + OLD_ARGS@ + spec_escape(binary) + OLD_ENV@ + spec_escape(home)
        + PATH_KEY@ + spec_escape(search_path(home)) + OLD_REST@ + log + ERR_LOG@ + log + CLOSE@
}

/// Appends a text to a character vector.
pub fn append(v: &Vec<char>, text: &str) -> (r: Vec<char>)
    ensures
        r@ == v@ + text@,
{
    concat(v, &chars_of(text))
}

/// The property list of the launch agent.
pub fn plist_contents(binary: &str, home: &str, state: &str) -> (s: String)
    ensures
        s@ == spec_plist_contents(binary@, home@, state@),
{
    let log = escape(join_path(state, "agent.log").as_str());
    let path = escape(search_path_of(home).as_str());
    let mut text = chars_of(AGENT_OPEN);
    text = append(&text, LABEL);
    text = append(&text, OLD_ARGS);
    text = append(&text, escape(binary).as_str());
    text = append(&text, OLD_ENV);
    text = append(&text, escape(home).as_str());
    text = append(&text, PATH_KEY);
    text = append(&text, path.as_str());
    text = append(&text, OLD_REST);
    text = append(&text, log.as_str());
    text = append(&text, ERR_LOG);
    text = append(&text, log.as_str());
    text = append(&text, CLOSE);
    string_of(&text)
}

/// `i` is the position of the last `/` of `s`.
pub open spec fn is_last_slash(s: Seq<char>, i: int) -> bool {
    &&& 0 <= i < s.len()
    &&& s[i] == '/'
    &&& forall|j: int| i < j < s.len() ==> s[j] != '/'
}

/// The launchd domain of a service target `domain/label`: the text before
/// its last `/`, or the whole target where it has none.
pub open spec fn spec_service_domain(service: Seq<char>) -> Seq<char> {
    if exists|i: int| is_last_slash(service, i) {
        service.take(choose|i: int| is_last_slash(service, i))
    } else {
        service
    }
}

/// The launchd domain of a service target.
pub fn service_domain(service: &str) -> (s: String)
    ensures
        s@ == spec_service_domain(service@),
{
    let v = chars_of(service);
    let mut i = v.len();
    while i > 0
        invariant
            i <= v.len(),
            v@ == service@,
            forall|j: int| i <= j < v.len() ==> v@[j] != '/',
        decreases i,
    {
        if v[i - 1] == '/' {
            assert(is_last_slash(v@, i - 1));
            assert forall|k: int| is_last_slash(v@, k) implies k == i - 1 by {
                if k < i - 1 {
                    assert(v@[i - 1] != '/');
                } else if k > i - 1 {
                    assert(v@[k] != '/');
                }
            }
            let ghost last = choose|k: int| is_last_slash(v@, k);
            assert(is_last_slash(v@, last));
            assert(last == i - 1);
            let head = crate::text::slice(&v, 0, i - 1);
            assert(head@ == v@.take(i - 1));
            return string_of(&head);
        }
        i = i - 1;
    }
    assert(forall|k: int| !is_last_slash(v@, k));
    string_of(&v)
}

proof fn lemma_replace_keeps_absent(s: Seq<char>, pat: Seq<char>, rep: Seq<char>, c: char)
    requires
        !s.contains(c),
        !rep.contains(c),
    ensures
        !replace(s, pat, rep).contains(c),
    decreases s.len(),
{
    if pat.len() == 0 || s.len() < pat.len() {
    } else if s.take(pat.len() as int) == pat {
        let rest = s.skip(pat.len() as int);
        assert forall|i: int| 0 <= i < rest.len() implies rest[i] != c by {
            assert(rest[i] == s[i + pat.len()]);
        }
        lemma_replace_keeps_absent(rest, pat, rep, c);
        let r = replace(rest, pat, rep);
        assert forall|i: int| 0 <= i < (rep + r).len() implies (rep + r)[i] != c by {
            if i < rep.len() {
                assert((rep + r)[i] == rep[i]);
            } else {
                assert((rep + r)[i] == r[i - rep.len()]);
            }
        }
    } else {
        let rest = s.drop_first();
        assert forall|i: int| 0 <= i < rest.len() implies rest[i] != c by {
            assert(rest[i] == s[i + 1]);
        }
        lemma_replace_keeps_absent(rest, pat, rep, c);
        let r = replace(rest, pat, rep);
        assert(s[0] != c);
        assert forall|i: int| 0 <= i < (seq![s[0]] + r).len() implies (seq![s[0]] + r)[i] != c by {
            if i == 0 {
                assert((seq![s[0]] + r)[i] == s[0]);
            } else {
                assert((seq![s[0]] + r)[i] == r[i - 1]);
            }
        }
    }
}

proof fn lemma_replace_removes(s: Seq<char>, c: char, rep: Seq<char>)
    requires
        !rep.contains(c),
    ensures
        !replace(s, seq![c], rep).contains(c),
    decreases s.len(),
{
    let pat = seq![c];
    if s.len() < 1 {
        assert(s.len() == 0);
    } else if s.take(1) == pat {
        let rest = s.skip(1);
        lemma_replace_removes(rest, c, rep);
        let r = replace(rest, pat, rep);
        assert forall|i: int| 0 <= i < (rep + r).len() implies (rep + r)[i] != c by {
            if i < rep.len() {
                assert((rep + r)[i] == rep[i]);
            } else {
                assert((rep + r)[i] == r[i - rep.len()]);
            }
        }
    } else {
        let rest = s.drop_first();
        lemma_replace_removes(rest, c, rep);
        let r = replace(rest, pat, rep);
        assert(s[0] != c) by {
            if s[0] == c {
                assert(s.take(1) =~= pat);
            }
        }
        assert forall|i: int| 0 <= i < (seq![s[0]] + r).len() implies (seq![s[0]] + r)[i] != c by {
            if i == 0 {
                assert((seq![s[0]] + r)[i] == s[0]);
            } else {
                assert((seq![s[0]] + r)[i] == r[i - 1]);
            }
        }
    }
}

proof fn lemma_lacks(t: Seq<char>, c: char)
    requires
        forall|i: int| 0 <= i < t.len() ==> t[i] != c,
    ensures
        !t.contains(c),
{
}

/// An escaped value holds none of `<`, `>`, `"` and `'`: each is written
/// as an entity, and no later replacement brings one back.
pub proof fn escaped_values_hold_no_markup(value: Seq<char>)
    ensures
        !spec_escape(value).contains('<'),
        !spec_escape(value).contains('>'),
        !spec_escape(value).contains('"'),
        !spec_escape(value).contains('\''),
{
    reveal_strlit("&");
    reveal_strlit("&amp;");
    reveal_strlit("<");
    reveal_strlit("&lt;");
    reveal_strlit(">");
    reveal_strlit("&gt;");
    reveal_strlit("\"");
    reveal_strlit("&quot;");
    reveal_strlit("'");
    reveal_strlit("&apos;");
    let amp = replace(value, "&"@, "&amp;"@);
    let lt = replace(amp, "<"@, "&lt;"@);
    let gt = replace(lt, ">"@, "&gt;"@);
    let quot = replace(gt, "\""@, "&quot;"@);
    assert("<"@ =~= seq!['<']);
    assert(">"@ =~= seq!['>']);
    assert("\""@ =~= seq!['"']);
    assert("'"@ =~= seq!['\'']);
    lemma_lacks("&lt;"@, '<');
    lemma_lacks("&gt;"@, '<');
    lemma_lacks("&gt;"@, '>');
    lemma_lacks("&quot;"@, '<');
    lemma_lacks("&quot;"@, '>');
    lemma_lacks("&quot;"@, '"');
    lemma_lacks("&apos;"@, '<');
    lemma_lacks("&apos;"@, '>');
    lemma_lacks("&apos;"@, '"');
    lemma_lacks("&apos;"@, '\'');
    lemma_replace_removes(amp, '<', "&lt;"@);
    lemma_replace_keeps_absent(lt, ">"@, "&gt;"@, '<');
    lemma_replace_keeps_absent(gt, "\""@, "&quot;"@, '<');
    lemma_replace_keeps_absent(quot, "'"@, "&apos;"@, '<');
    lemma_replace_removes(lt, '>', "&gt;"@);
    lemma_replace_keeps_absent(gt, "\""@, "&quot;"@, '>');
    lemma_replace_keeps_absent(quot, "'"@, "&apos;"@, '>');
    lemma_replace_removes(gt, '"', "&quot;"@);
    lemma_replace_keeps_absent(quot, "'"@, "&apos;"@, '"');
    lemma_replace_removes(quot, '\'', "&apos;"@);
}

/// How `escape` writes one character.
pub open spec fn escape_char(c: char) -> Seq<char> {
    if c == '&' {
        seq!['&', 'a', 'm', 'p', ';']
    } else if c == '<' {
        seq!['&', 'l', 't', ';']
    } else if c == '>' {
        seq!['&', 'g', 't', ';']
    } else if c == '"' {
        seq!['&', 'q', 'u', 'o', 't', ';']
    } else if c == '\'' {
        seq!['&', 'a', 'p', 'o', 's', ';']
    } else {
        seq![c]
    }
}

/// The text with the five entities `&amp;`, `&lt;`, `&gt;`, `&quot;` and
/// `&apos;` read back as the characters they stand for, from the left.
pub open spec fn spec_unescape(s: Seq<char>) -> Seq<char>
    decreases s.len(),
{
    if s.len() == 0 {
        s
    } else if s.len() >= 5 && s.take(5) == escape_char('&') {
        seq!['&'] + spec_unescape(s.skip(5))
    } else if s.len() >= 4 && s.take(4) == escape_char('<') {
        seq!['<'] + spec_unescape(s.skip(4))
    } else if s.len() >= 4 && s.take(4) == escape_char('>') {
        seq!['>'] + spec_unescape(s.skip(4))
    } else if s.len() >= 6 && s.take(6) == escape_char('"') {
        seq!['"'] + spec_unescape(s.skip(6))
    } else if s.len() >= 6 && s.take(6) == escape_char('\'') {
        seq!['\''] + spec_unescape(s.skip(6))
    } else {
        seq![s[0]] + spec_unescape(s.drop_first())
    }
}

proof fn lemma_replace_one_concat(a: Seq<char>, b: Seq<char>, c: char, rep: Seq<char>)
    ensures
        replace(a + b, seq![c], rep) == replace(a, seq![c], rep) + replace(b, seq![c], rep),
    decreases a.len(),
{
    let pat = seq![c];
    let s = a + b;
    if a.len() == 0 {
        assert(s =~= b);
        assert(replace(a, pat, rep) == a);
        assert(a + replace(b, pat, rep) =~= replace(b, pat, rep));
    } else {
        assert(s.take(1) =~= seq![a[0]]);
        assert(a.take(1) =~= seq![a[0]]);
        if a[0] == c {
            assert(s.take(1) =~= pat);
            assert(s.skip(1) =~= a.skip(1) + b);
            lemma_replace_one_concat(a.skip(1), b, c, rep);
            assert(rep + (replace(a.skip(1), pat, rep) + replace(b, pat, rep)) =~= (rep + replace(
                a.skip(1),
                pat,
                rep,
            )) + replace(b, pat, rep));
        } else {
            assert(s.take(1) != pat) by {
                assert(s.take(1)[0] != pat[0]);
            }
            assert(a.take(1) != pat) by {
                assert(a.take(1)[0] != pat[0]);
            }
            assert(s.drop_first() =~= a.drop_first() + b);
            assert(s[0] == a[0]);
            lemma_replace_one_concat(a.drop_first(), b, c, rep);
            assert(seq![a[0]] + (replace(a.drop_first(), pat, rep) + replace(b, pat, rep)) =~= (seq![
                a[0],
            ] + replace(a.drop_first(), pat, rep)) + replace(b, pat, rep));
        }
    }
}

proof fn lemma_replace_one_char(x: char, c: char, rep: Seq<char>)
    ensures
        replace(seq![x], seq![c], rep) == if x == c {
            rep
        } else {
            seq![x]
        },
{
    let s = seq![x];
    assert(s.take(1) =~= s);
    assert(s.skip(1) =~= Seq::<char>::empty());
    assert(s.drop_first() =~= Seq::<char>::empty());
    assert(replace(Seq::<char>::empty(), seq![c], rep) == Seq::<char>::empty());
    if x == c {
        assert(rep + Seq::<char>::empty() =~= rep);
    } else {
        assert(s.take(1) != seq![c]) by {
            assert(s.take(1)[0] != seq![c][0]);
        }
        assert(seq![x] + Seq::<char>::empty() =~= seq![x]);
    }
}

proof fn lemma_replace_one_absent(s: Seq<char>, c: char, rep: Seq<char>)
    requires
        forall|i: int| 0 <= i < s.len() ==> s[i] != c,
    ensures
        replace(s, seq![c], rep) == s,
    decreases s.len(),
{
    if s.len() > 0 {
        let rest = s.drop_first();
        assert(s =~= seq![s[0]] + rest);
        lemma_replace_one_concat(seq![s[0]], rest, c, rep);
        lemma_replace_one_char(s[0], c, rep);
        assert forall|i: int| 0 <= i < rest.len() implies rest[i] != c by {
            assert(rest[i] == s[i + 1]);
        }
        lemma_replace_one_absent(rest, c, rep);
    }
}

/// The patterns of `spec_escape`, as characters.
proof fn lemma_escape_patterns()
    ensures
        "&"@ == seq!['&'],
        "<"@ == seq!['<'],
        ">"@ == seq!['>'],
        "\""@ == seq!['"'],
        "'"@ == seq!['\''],
        "&amp;"@ == escape_char('&'),
        "&lt;"@ == escape_char('<'),
        "&gt;"@ == escape_char('>'),
        "&quot;"@ == escape_char('"'),
        "&apos;"@ == escape_char('\''),
{
    reveal_strlit("&");
    reveal_strlit("<");
    reveal_strlit(">");
    reveal_strlit("\"");
    reveal_strlit("'");
    reveal_strlit("&amp;");
    reveal_strlit("&lt;");
    reveal_strlit("&gt;");
    reveal_strlit("&quot;");
    reveal_strlit("&apos;");
    assert("&"@ =~= seq!['&']);
    assert("<"@ =~= seq!['<']);
    assert(">"@ =~= seq!['>']);
    assert("\""@ =~= seq!['"']);
    assert("'"@ =~= seq!['\'']);
    assert("&amp;"@ =~= escape_char('&'));
    assert("&lt;"@ =~= escape_char('<'));
    assert("&gt;"@ =~= escape_char('>'));
    assert("&quot;"@ =~= escape_char('"'));
    assert("&apos;"@ =~= escape_char('\''));
}

proof fn lemma_escape_concat(a: Seq<char>, b: Seq<char>)
    ensures
        spec_escape(a + b) == spec_escape(a) + spec_escape(b),
{
    lemma_escape_patterns();
    let amp = |t: Seq<char>| replace(t, seq!['&'], escape_char('&'));
    let lt = |t: Seq<char>| replace(t, seq!['<'], escape_char('<'));
    let gt = |t: Seq<char>| replace(t, seq!['>'], escape_char('>'));
    let quot = |t: Seq<char>| replace(t, seq!['"'], escape_char('"'));
    lemma_replace_one_concat(a, b, '&', escape_char('&'));
    lemma_replace_one_concat(amp(a), amp(b), '<', escape_char('<'));
    lemma_replace_one_concat(lt(amp(a)), lt(amp(b)), '>', escape_char('>'));
    lemma_replace_one_concat(gt(lt(amp(a))), gt(lt(amp(b))), '"', escape_char('"'));
    lemma_replace_one_concat(
        quot(gt(lt(amp(a)))),
        quot(gt(lt(amp(b)))),
        '\'',
        escape_char('\''),
    );
}

proof fn lemma_escape_one(c: char)
    ensures
        spec_escape(seq![c]) == escape_char(c),
{
    lemma_escape_patterns();
    let e = escape_char(c);
    lemma_replace_one_char(c, '&', escape_char('&'));
    let s1 = replace(seq![c], seq!['&'], escape_char('&'));
    if c == '&' {
        lemma_replace_one_absent(s1, '<', escape_char('<'));
        lemma_replace_one_absent(s1, '>', escape_char('>'));
        lemma_replace_one_absent(s1, '"', escape_char('"'));
        lemma_replace_one_absent(s1, '\'', escape_char('\''));
    } else {
        lemma_replace_one_char(c, '<', escape_char('<'));
        let s2 = replace(s1, seq!['<'], escape_char('<'));
        if c == '<' {
            lemma_replace_one_absent(s2, '>', escape_char('>'));
            lemma_replace_one_absent(s2, '"', escape_char('"'));
            lemma_replace_one_absent(s2, '\'', escape_char('\''));
        } else {
            lemma_replace_one_char(c, '>', escape_char('>'));
            let s3 = replace(s2, seq!['>'], escape_char('>'));
            if c == '>' {
                lemma_replace_one_absent(s3, '"', escape_char('"'));
                lemma_replace_one_absent(s3, '\'', escape_char('\''));
            } else {
                lemma_replace_one_char(c, '"', escape_char('"'));
                let s4 = replace(s3, seq!['"'], escape_char('"'));
                if c == '"' {
                    lemma_replace_one_absent(s4, '\'', escape_char('\''));
                } else {
                    lemma_replace_one_char(c, '\'', escape_char('\''));
                }
            }
        }
    }
}

proof fn lemma_unescape_one(c: char, rest: Seq<char>)
    ensures
        spec_unescape(escape_char(c) + rest) == seq![c] + spec_unescape(rest),
{
    let e = escape_char(c);
    let s = e + rest;
    assert(s.skip(e.len() as int) =~= rest);
    assert(s.take(e.len() as int) =~= e);
    if c == '&' {
    } else if c == '<' {
        assert(s[1] == 'l');
        assert(s.len() >= 5 ==> s.take(5) != escape_char('&')) by {
            if s.len() >= 5 {
                assert(s.take(5)[1] != escape_char('&')[1]);
            }
        }
    } else if c == '>' {
        assert(s[1] == 'g');
        assert(s.len() >= 5 ==> s.take(5) != escape_char('&')) by {
            if s.len() >= 5 {
                assert(s.take(5)[1] != escape_char('&')[1]);
            }
        }
        assert(s.take(4) != escape_char('<')) by {
            assert(s.take(4)[1] != escape_char('<')[1]);
        }
    } else if c == '"' {
        assert(s.take(5) != escape_char('&')) by {
            assert(s.take(5)[1] != escape_char('&')[1]);
        }
        assert(s.take(4) != escape_char('<')) by {
            assert(s.take(4)[1] != escape_char('<')[1]);
        }
        assert(s.take(4) != escape_char('>')) by {
            assert(s.take(4)[1] != escape_char('>')[1]);
        }
    } else if c == '\'' {
        assert(s.take(5) != escape_char('&')) by {
            assert(s.take(5)[2] != escape_char('&')[2]);
        }
        assert(s.take(4) != escape_char('<')) by {
            assert(s.take(4)[1] != escape_char('<')[1]);
        }
        assert(s.take(4) != escape_char('>')) by {
            assert(s.take(4)[1] != escape_char('>')[1]);
        }
        assert(s.take(6) != escape_char('"')) by {
            assert(s.take(6)[1] != escape_char('"')[1]);
        }
    } else {
        assert(s[0] == c);
        assert(s.len() >= 5 ==> s.take(5) != escape_char('&')) by {
            if s.len() >= 5 {
                assert(s.take(5)[0] != escape_char('&')[0]);
            }
        }
        assert(s.len() >= 4 ==> s.take(4) != escape_char('<')) by {
            if s.len() >= 4 {
                assert(s.take(4)[0] != escape_char('<')[0]);
            }
        }
        assert(s.len() >= 4 ==> s.take(4) != escape_char('>')) by {
            if s.len() >= 4 {
                assert(s.take(4)[0] != escape_char('>')[0]);
            }
        }
        assert(s.len() >= 6 ==> s.take(6) != escape_char('"')) by {
            if s.len() >= 6 {
                assert(s.take(6)[0] != escape_char('"')[0]);
            }
        }
        assert(s.len() >= 6 ==> s.take(6) != escape_char('\'')) by {
            if s.len() >= 6 {
                assert(s.take(6)[0] != escape_char('\'')[0]);
            }
        }
        assert(s.drop_first() =~= rest);
    }
}

/// Escaping can be undone: reading the entities of an escaped value back
/// gives the value, and a value without `&`, `<`, `>`, `"` and `'` is
/// written unchanged.
pub proof fn escaping_round_trips(value: Seq<char>)
    ensures
        spec_unescape(spec_escape(value)) == value,
        (forall|i: int|
            0 <= i < value.len() ==> escape_char(#[trigger] value[i]) == seq![value[i]])
            ==> spec_escape(value) == value,
    decreases value.len(),
{
    lemma_escape_patterns();
    if value.len() == 0 {
        lemma_replace_one_absent(value, '&', escape_char('&'));
        lemma_replace_one_absent(value, '<', escape_char('<'));
        lemma_replace_one_absent(value, '>', escape_char('>'));
        lemma_replace_one_absent(value, '"', escape_char('"'));
        lemma_replace_one_absent(value, '\'', escape_char('\''));
    } else {
        let rest = value.drop_first();
        assert(value =~= seq![value[0]] + rest);
        lemma_escape_concat(seq![value[0]], rest);
        lemma_escape_one(value[0]);
        lemma_unescape_one(value[0], spec_escape(rest));
        escaping_round_trips(rest);
        if forall|i: int|
            0 <= i < value.len() ==> escape_char(#[trigger] value[i]) == seq![value[i]] {
            assert forall|i: int| 0 <= i < rest.len() implies escape_char(#[trigger] rest[i])
                == seq![rest[i]] by {
                assert(rest[i] == value[i + 1]);
            }
            assert(escape_char(value[0]) == seq![value[0]]);
        }
    }
}

/// The order in which the entities are read back by replacement: `&lt;`,
/// `&gt;`, `&quot;`, `&apos;`, and `&amp;` last.
pub open spec fn decode_order(j: int) -> char {
    if j == 0 {
        '<'
    } else if j == 1 {
        '>'
    } else if j == 2 {
        '"'
    } else if j == 3 {
        '\''
    } else {
        '&'
    }
}

/// A character's entity has been read back after the first `j`
/// replacements.
pub open spec fn decoded(c: char, j: int) -> bool {
    exists|k: int| 0 <= k < j && k < 5 && decode_order(k) == c
}

/// How a character of the value stands after the first `j` replacements.
pub open spec fn partly_decoded(c: char, j: int) -> Seq<char> {
    if decoded(c, j) {
        seq![c]
    } else {
        escape_char(c)
    }
}

/// The escaped value after the first `j` replacements.
pub open spec fn decode_stage(value: Seq<char>, j: int) -> Seq<char>
    decreases value.len(),
{
    if value.len() == 0 {
        Seq::empty()
    } else {
        partly_decoded(value[0], j) + decode_stage(value.drop_first(), j)
    }
}

/// The escaped value read back by replacing `&lt;`, `&gt;`, `&quot;`,
/// `&apos;` and then `&amp;` by the characters they stand for.
pub open spec fn replace_entities(s: Seq<char>) -> Seq<char> {
    let lt = replace(s, "&lt;"@, "<"@);
    let gt = replace(lt, "&gt;"@, ">"@);
    let quot = replace(gt, "&quot;"@, "\""@);
    let apos = replace(quot, "&apos;"@, "'"@);
    replace(apos, "&amp;"@, "&"@)
}

proof fn lemma_replace_skips(p: Seq<char>, rest: Seq<char>, pat: Seq<char>, rep: Seq<char>)
    requires
        pat.len() >= 1,
        pat[0] == '&',
        forall|i: int| 0 <= i < p.len() ==> p[i] != '&',
    ensures
        replace(p + rest, pat, rep) == p + replace(rest, pat, rep),
    decreases p.len(),
{
    let s = p + rest;
    if p.len() == 0 {
        assert(s =~= rest);
        assert(p + replace(rest, pat, rep) =~= replace(rest, pat, rep));
    } else if s.len() < pat.len() {
        assert(replace(rest, pat, rep) == rest);
    } else {
        assert(s.take(pat.len() as int)[0] == p[0]);
        assert(s.take(pat.len() as int) != pat);
        assert(s.drop_first() =~= p.drop_first() + rest);
        assert forall|i: int| 0 <= i < p.drop_first().len() implies p.drop_first()[i] != '&' by {
            assert(p.drop_first()[i] == p[i + 1]);
        }
        lemma_replace_skips(p.drop_first(), rest, pat, rep);
        assert(seq![s[0]] + (p.drop_first() + replace(rest, pat, rep)) =~= p + replace(
            rest,
            pat,
            rep,
        ));
    }
}

proof fn lemma_replace_chunk(c: Seq<char>, rest: Seq<char>, pat: Seq<char>, rep: Seq<char>)
    requires
        c.len() >= 1,
        pat.len() >= 4,
        pat[0] == '&',
        forall|i: int| 1 <= i < c.len() ==> c[i] != '&',
        c == pat || c[0] != '&' || (c.len() >= 3 && (c[1] != pat[1] || c[2] != pat[2])),
    ensures
        replace(c + rest, pat, rep) == (if c == pat {
            rep
        } else {
            c
        }) + replace(rest, pat, rep),
{
    let s = c + rest;
    if c == pat {
        assert(s.take(pat.len() as int) =~= pat);
        assert(s.skip(pat.len() as int) =~= rest);
    } else if s.len() < pat.len() {
        assert(replace(rest, pat, rep) == rest);
    } else {
        assert(s.take(pat.len() as int) != pat) by {
            if c[0] != '&' {
                assert(s.take(pat.len() as int)[0] != pat[0]);
            } else if c[1] != pat[1] {
                assert(s.take(pat.len() as int)[1] != pat[1]);
            } else {
                assert(s.take(pat.len() as int)[2] != pat[2]);
            }
        }
        let tail = c.drop_first();
        assert(s.drop_first() =~= tail + rest);
        assert forall|i: int| 0 <= i < tail.len() implies tail[i] != '&' by {
            assert(tail[i] == c[i + 1]);
        }
        lemma_replace_skips(tail, rest, pat, rep);
        assert(seq![s[0]] + (tail + replace(rest, pat, rep)) =~= c + replace(rest, pat, rep));
    }
}

proof fn lemma_decode_step_char(c: char, j: int)
    requires
        0 <= j < 5,
    ensures
        partly_decoded(c, j).len() >= 1,
        forall|i: int| 1 <= i < partly_decoded(c, j).len() ==> partly_decoded(c, j)[i] != '&',
        partly_decoded(c, j) == escape_char(decode_order(j)) || partly_decoded(c, j)[0] != '&' || (
        partly_decoded(c, j).len() >= 3 && (partly_decoded(c, j)[1] != escape_char(
            decode_order(j),
        )[1] || partly_decoded(c, j)[2] != escape_char(decode_order(j))[2])),
        partly_decoded(c, j + 1) == (if partly_decoded(c, j) == escape_char(decode_order(j)) {
            seq![decode_order(j)]
        } else {
            partly_decoded(c, j)
        }),
{
    assert(decoded(c, j) <==> (exists|k: int| 0 <= k < j && decode_order(k) == c));
    assert(decoded(c, j + 1) <==> (decoded(c, j) || decode_order(j) == c)) by {
        if decoded(c, j + 1) && !decoded(c, j) {
            let k = choose|k: int| 0 <= k < j + 1 && k < 5 && decode_order(k) == c;
            assert(k == j);
        }
        if decode_order(j) == c {
            assert(0 <= j < j + 1 && j < 5 && decode_order(j) == c);
        }
    }
    if decoded(c, j) {
        let k = choose|k: int| 0 <= k < j && k < 5 && decode_order(k) == c;
        assert(decode_order(k) != decode_order(j));
    }
}

proof fn lemma_decode_step(value: Seq<char>, j: int)
    requires
        0 <= j < 5,
    ensures
        replace(decode_stage(value, j), escape_char(decode_order(j)), seq![decode_order(j)])
            == decode_stage(value, j + 1),
    decreases value.len(),
{
    let pat = escape_char(decode_order(j));
    let rep = seq![decode_order(j)];
    if value.len() == 0 {
        assert(replace(Seq::<char>::empty(), pat, rep) == Seq::<char>::empty());
    } else {
        lemma_decode_step(value.drop_first(), j);
        lemma_decode_step_char(value[0], j);
        lemma_replace_chunk(partly_decoded(value[0], j), decode_stage(value.drop_first(), j), pat, rep);
    }
}

proof fn lemma_stage_start(value: Seq<char>)
    ensures
        decode_stage(value, 0) == spec_escape(value),
    decreases value.len(),
{
    if value.len() == 0 {
        lemma_escape_patterns();
        lemma_replace_one_absent(value, '&', escape_char('&'));
        lemma_replace_one_absent(value, '<', escape_char('<'));
        lemma_replace_one_absent(value, '>', escape_char('>'));
        lemma_replace_one_absent(value, '"', escape_char('"'));
        lemma_replace_one_absent(value, '\'', escape_char('\''));
    } else {
        let rest = value.drop_first();
        assert(value =~= seq![value[0]] + rest);
        lemma_escape_concat(seq![value[0]], rest);
        lemma_escape_one(value[0]);
        lemma_stage_start(rest);
        assert(!decoded(value[0], 0));
    }
}

proof fn lemma_stage_end(value: Seq<char>)
    ensures
        decode_stage(value, 5) == value,
    decreases value.len(),
{
    if value.len() > 0 {
        let c = value[0];
        lemma_stage_end(value.drop_first());
        if c == '<' {
            assert(decode_order(0) == c);
        } else if c == '>' {
            assert(decode_order(1) == c);
        } else if c == '"' {
            assert(decode_order(2) == c);
        } else if c == '\'' {
            assert(decode_order(3) == c);
        } else if c == '&' {
            assert(decode_order(4) == c);
        }
        assert(partly_decoded(c, 5) == seq![c]);
        assert(seq![c] + value.drop_first() =~= value);
    }
}

/// Escaping can be undone by replacement: replacing `&lt;`, `&gt;`,
/// `&quot;`, `&apos;` and then `&amp;` in an escaped value by the
/// characters they stand for gives the value back.
pub proof fn escaping_is_undone_by_replacing_entities(value: Seq<char>)
    ensures
        replace_entities(spec_escape(value)) == value,
{
    lemma_escape_patterns();
    lemma_stage_start(value);
    lemma_decode_step(value, 0);
    lemma_decode_step(value, 1);
    lemma_decode_step(value, 2);
    lemma_decode_step(value, 3);
    lemma_decode_step(value, 4);
    lemma_stage_end(value);
}

/// The launch agent runs with `HOME` set to the home directory it is given:
/// in its property list the `HOME` key is followed by the escaped `home`,
/// closed by the next `</string>` (an escaped value holds no `<`), whatever
/// the binary and the state directory are.
pub proof fn home_is_the_given_home(binary: Seq<char>, home: Seq<char>, state: Seq<char>)
    ensures
        exists|before: Seq<char>, after: Seq<char>|
            spec_plist_contents(binary, home, state) == before
                + "<key>HOME</key>\n    <string>"@ + spec_escape(home) + "</string>"@ + after,
        !spec_escape(home).contains('<'),
{
    reveal_strlit("<key>HOME</key>\n    <string>");
    reveal_strlit("</string>");
    reveal_strlit(
        "</string>\n    <string>run</string>\n  </array>\n  <key>EnvironmentVariables</key>\n  <dict>\n    <key>HOME</key>\n    <string>",
    );
    reveal_strlit("</string>\n    <key>PATH</key>\n    <string>");
    escaped_values_hold_no_markup(home);
    let marker = "<key>HOME</key>\n    <string>"@;
    let close = "</string>"@;
    let env = OLD_ENV@;
    let head = env.take(env.len() - marker.len());
    assert(env =~= head + marker);
    let tail = PATH_KEY@.skip(close.len() as int);
    assert(PATH_KEY@ =~= close + tail);
    let log = spec_escape(path_join(state, "agent.log"@));
    let before = AGENT_OPEN@ + LABEL@ + OLD_ARGS@ + spec_escape(binary) + head;
    let after = tail + spec_escape(search_path(home)) + OLD_REST@ + log + ERR_LOG@ + log + CLOSE@;
    assert(spec_plist_contents(binary, home, state) =~= before + marker + spec_escape(home) + close
        + after);
}

} // verus!
