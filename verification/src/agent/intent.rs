//! Requests that need no model: "flash", and "open <site>" with an optional
//! side ("open Netflix on the right").
//!
//! The suffix tests cut the request by bytes, as `str` slicing does. The
//! suffixes are ASCII, so where a cut falls on a character boundary the byte
//! comparison and the character comparison below agree; where it does not,
//! slicing a `str` panics, and `parse` leaves such requests out
//! (`intent_panics`; `splits_a_character` finds them).
use crate::cmux::{Action, Direction};
use crate::text::{
    ascii_lower, chars_of, concat, eq_ignore_ascii_case, includes, is_ascii_alphanumeric,
    lower_all, lowered, same_ignoring_case, slice, string_of, trim, trim_end, trim_start, trimmed,
    utf8_len, utf8_width, lemma_utf8_split, lemma_utf8_step,
};
use vstd::prelude::*;

verus! {

/// An action found in a request, with the message that reports it.
#[derive(Debug)]
pub struct Intent {
    pub action: Action,
    pub message: String,
}

/// What `parse` finds in a request.
pub enum IntentSpec {
    Flash,
    OpenBrowser { direction: Option<Direction>, url: Seq<char>, target: Seq<char> },
}

/// `s` without trailing `.`, `!` and `?`.
pub open spec fn trim_end_punct(s: Seq<char>) -> Seq<char>
    decreases s.len(),
{
    if s.len() > 0 && (s.last() == '.' || s.last() == '!' || s.last() == '?') {
        trim_end_punct(s.drop_last())
    } else {
        s
    }
}

/// `strip_suffix_ignore_case` on characters.
pub open spec fn strip_ic(value: Seq<char>, suffix: Seq<char>) -> Option<Seq<char>> {
    if value.len() >= suffix.len() && eq_ignore_ascii_case(
        value.skip(value.len() - suffix.len()),
        suffix,
    ) {
        Some(value.take(value.len() - suffix.len()))
    } else {
        None
    }
}

/// Cutting the last `n` bytes off `value` falls inside a character, where
/// slicing a `str` panics.
pub open spec fn cut_panics(value: Seq<char>, n: nat) -> bool {
    &&& utf8_len(value) >= n
    &&& !exists|k: int| 0 <= k <= value.len() && utf8_len(value.take(k)) + n == utf8_len(value)
}

/// The side suffixes that a request may end with, in the order tried.
pub open spec fn direction_suffixes() -> Seq<(Seq<char>, Direction)> {
    seq![
        (" on the right"@, Direction::Right),
        (" to the right"@, Direction::Right),
        (" on the left"@, Direction::Left),
        (" to the left"@, Direction::Left),
        (" at the top"@, Direction::Up),
        (" on top"@, Direction::Up),
        (" at the bottom"@, Direction::Down),
        (" on the bottom"@, Direction::Down),
    ]
}

/// The browser suffixes that a target may end with, in the order tried.
pub open spec fn browser_suffixes() -> Seq<Seq<char>> {
    seq![" in the browser"@, " in a browser"@, " in browser"@]
}

/// The first side suffix, from position `i` of the list on, that `value` ends
/// with: `value` without it, and its direction.
pub open spec fn direction_from(value: Seq<char>, i: int) -> (Seq<char>, Option<Direction>)
    decreases direction_suffixes().len() - i,
{
    if i < 0 || i >= direction_suffixes().len() {
        (value, None)
    } else {
        match strip_ic(value, direction_suffixes()[i].0) {
            Some(rest) => (rest, Some(direction_suffixes()[i].1)),
            None => direction_from(value, i + 1),
        }
    }
}

/// The side suffix tests from position `i` on cut inside a character
/// before one of them matches.
pub open spec fn direction_panics_from(value: Seq<char>, i: int) -> bool
    decreases direction_suffixes().len() - i,
{
    if i < 0 || i >= direction_suffixes().len() {
        false
    } else if cut_panics(value, direction_suffixes()[i].0.len()) {
        true
    } else if strip_ic(value, direction_suffixes()[i].0) is Some {
        false
    } else {
        direction_panics_from(value, i + 1)
    }
}

/// `value` without the first browser suffix, from position `i` on, that it
/// ends with.
pub open spec fn browser_from(value: Seq<char>, i: int) -> Seq<char>
    decreases browser_suffixes().len() - i,
{
    if i < 0 || i >= browser_suffixes().len() {
        value
    } else {
        match strip_ic(value, browser_suffixes()[i]) {
            Some(rest) => rest,
            None => browser_from(value, i + 1),
        }
    }
}

/// The browser suffix tests from position `i` on cut inside a character
/// before one of them matches.
pub open spec fn browser_panics_from(value: Seq<char>, i: int) -> bool
    decreases browser_suffixes().len() - i,
{
    if i < 0 || i >= browser_suffixes().len() {
        false
    } else if cut_panics(value, browser_suffixes()[i].len()) {
        true
    } else if strip_ic(value, browser_suffixes()[i]) is Some {
        false
    } else {
        browser_panics_from(value, i + 1)
    }
}

/// A host name made of ASCII letters, digits, `.`, `-` and `_`.
pub open spec fn is_host_char(c: char) -> bool {
    is_ascii_alphanumeric(c) || c == '.' || c == '-' || c == '_'
}

/// The URL that a target names: itself where it is an http(s) URL; for a
/// host name, `https://` and the host in lowercase, with `.com` where the
/// host has no dot.
pub open spec fn spec_url(target: Seq<char>) -> Option<Seq<char>> {
    if crate::text::starts_with(target, "https://"@) || crate::text::starts_with(
        target,
        "http://"@,
    ) {
        Some(target)
    } else if target.len() == 0 || !(forall|k: int|
        0 <= k < target.len() ==> is_host_char(#[trigger] target[k])) {
        None
    } else {
        let host = lower_all(target);
        if crate::text::contains(host, "."@) {
            Some("https://"@ + host)
        } else {
            Some("https://"@ + host + ".com"@)
        }
    }
}

/// The request trimmed and without trailing punctuation.
pub open spec fn cleaned(request: Seq<char>) -> Seq<char> {
    trim_end_punct(trim(request))
}

/// The request opens with "open " in any ASCII case.
pub open spec fn opens(request: Seq<char>) -> bool {
    request.len() >= 5 && eq_ignore_ascii_case(request.take(5), "open "@)
}

/// The target after the side and browser suffixes and a leading "the " are
/// removed.
pub open spec fn spec_target(after_open: Seq<char>) -> Seq<char> {
    let t = trim(browser_from(direction_from(after_open, 0).0, 0));
    if t.len() >= 4 && eq_ignore_ascii_case(t.take(4), "the "@) {
        trim(t.skip(4))
    } else {
        t
    }
}

/// What `parse` finds in a request.
pub open spec fn spec_parse(request: Seq<char>) -> Option<IntentSpec> {
    let r = cleaned(request);
    if eq_ignore_ascii_case(r, "flash"@) {
        Some(IntentSpec::Flash)
    } else if !opens(r) {
        None
    } else {
        let after_open = r.skip(5);
        let target = spec_target(after_open);
        match spec_url(target) {
            Some(url) => Some(
                IntentSpec::OpenBrowser {
                    direction: direction_from(after_open, 0).1,
                    url,
                    target,
                },
            ),
            None => None,
        }
    }
}

/// The requests that a suffix test would cut inside a character.
pub open spec fn intent_panics(request: Seq<char>) -> bool {
    let r = cleaned(request);
    &&& !eq_ignore_ascii_case(r, "flash"@)
    &&& opens(r)
    &&& (direction_panics_from(r.skip(5), 0) || browser_panics_from(
        direction_from(r.skip(5), 0).0,
        0,
    ))
}

/// The intent carries what the specification finds.
pub open spec fn intent_is(intent: Intent, expected: IntentSpec) -> bool {
    match expected {
        IntentSpec::Flash => intent.action is Flash && intent.message@ == "Flashed CMUX"@,
        IntentSpec::OpenBrowser { direction, url, target } => match intent.action {
            Action::OpenBrowser { direction: d, url: u } => d == direction && u@ == url
                && intent.message@ == "Opened "@ + target,
            _ => false,
        },
    }
}

/// The message that reports an intent.
pub open spec fn intent_message(expected: IntentSpec) -> Seq<char> {
    match expected {
        IntentSpec::Flash => "Flashed CMUX"@,
        IntentSpec::OpenBrowser { target, .. } => "Opened "@ + target,
    }
}

/// The intent of a request that needs no model, if it has one.
pub fn parse(request: &str) -> (r: Option<Intent>)
    requires
        !intent_panics(request@),
    ensures
        match spec_parse(request@) {
            None => r is None,
            Some(expected) => r matches Some(intent) && intent_is(intent, expected),
        },
{
    let request = trim_punct(&trimmed(&chars_of(request)));
    if same_ignoring_case(&request, &chars_of("flash")) {
        return Some(Intent { action: Action::Flash, message: "Flashed CMUX".to_owned() });
    }
    browser(&request)
}

/// `trim_end_matches(['.', '!', '?'])`.
fn trim_punct(v: &Vec<char>) -> (r: Vec<char>)
    ensures
        r@ == trim_end_punct(v@),
{
    let mut j = v.len();
    assert(v@.subrange(0, j as int) == v@);
    while j > 0 && (v[j - 1] == '.' || v[j - 1] == '!' || v[j - 1] == '?')
        invariant
            j <= v.len(),
            trim_end_punct(v@) == trim_end_punct(v@.subrange(0, j as int)),
        decreases j,
    {
        assert(v@.subrange(0, j as int).drop_last() == v@.subrange(0, j - 1));
        j = j - 1;
    }
    slice(v, 0, j)
}

/// The browser intent of a request opening with "open ".
fn browser(request: &Vec<char>) -> (r: Option<Intent>)
    requires
        !eq_ignore_ascii_case(request@, "flash"@),
        !intent_panics_cleaned(request@),
    ensures
        match spec_parse_cleaned(request@) {
            None => r is None,
            Some(expected) => r matches Some(intent) && intent_is(intent, expected),
        },
{
    if request.len() < 5 || !same_ignoring_case(&slice(request, 0, 5), &chars_of("open ")) {
        return None;
    }
    let after_open = slice(request, 5, request.len());
    assert(after_open@ == request@.skip(5));
    let (without_direction, direction) = direction(&after_open);
    let mut target = without_direction;
    let suffixes = [chars_of(" in the browser"), chars_of(" in a browser"), chars_of(" in browser")];
    let mut i: usize = 0;
    while i < 3
        invariant_except_break
            target@ == without_direction@,
            browser_from(without_direction@, 0) == browser_from(without_direction@, i as int),
            !browser_panics_from(without_direction@, i as int),
        invariant
            i <= 3,
            suffixes@.len() == 3,
            suffixes@[0]@ == browser_suffixes()[0],
            suffixes@[1]@ == browser_suffixes()[1],
            suffixes@[2]@ == browser_suffixes()[2],
        ensures
            target@ == browser_from(without_direction@, 0),
        decreases 3 - i,
    {
        if let Some(value) = strip_suffix_ignore_case(&target, &suffixes[i]) {
            target = value;
            break;
        }
        i = i + 1;
    }
    let mut target = trimmed(&target);
    if target.len() >= 4 && same_ignoring_case(&slice(&target, 0, 4), &chars_of("the ")) {
        target = trimmed(&slice(&target, 4, target.len()));
    }
    let url = match url(&target) {
        Some(url) => url,
        None => return None,
    };
    let message = concat(&chars_of("Opened "), &target);
    Some(
        Intent {
            action: Action::OpenBrowser { direction, url: string_of(&url) },
            message: string_of(&message),
        },
    )
}

/// `spec_parse` on a request that is already cleaned.
pub open spec fn spec_parse_cleaned(r: Seq<char>) -> Option<IntentSpec> {
    if !opens(r) {
        None
    } else {
        let after_open = r.skip(5);
        let target = spec_target(after_open);
        match spec_url(target) {
            Some(url) => Some(
                IntentSpec::OpenBrowser {
                    direction: direction_from(after_open, 0).1,
                    url,
                    target,
                },
            ),
            None => None,
        }
    }
}

/// `intent_panics` on a request that is already cleaned.
pub open spec fn intent_panics_cleaned(r: Seq<char>) -> bool {
    &&& opens(r)
    &&& (direction_panics_from(r.skip(5), 0) || browser_panics_from(
        direction_from(r.skip(5), 0).0,
        0,
    ))
}

/// The value without a side suffix, and the side.
fn direction(value: &Vec<char>) -> (r: (Vec<char>, Option<Direction>))
    requires
        !direction_panics_from(value@, 0),
    ensures
        (r.0@, r.1) == direction_from(value@, 0),
{
    let suffixes = [
        (chars_of(" on the right"), Direction::Right),
        (chars_of(" to the right"), Direction::Right),
        (chars_of(" on the left"), Direction::Left),
        (chars_of(" to the left"), Direction::Left),
        (chars_of(" at the top"), Direction::Up),
        (chars_of(" on top"), Direction::Up),
        (chars_of(" at the bottom"), Direction::Down),
        (chars_of(" on the bottom"), Direction::Down),
    ];
    let mut i: usize = 0;
    while i < 8
        invariant
            i <= 8,
            suffixes@.len() == 8,
            forall|k: int|
                0 <= k < 8 ==> (#[trigger] suffixes@[k]).0@ == direction_suffixes()[k].0
                    && suffixes@[k].1 == direction_suffixes()[k].1,
            direction_from(value@, 0) == direction_from(value@, i as int),
            !direction_panics_from(value@, i as int),
        decreases 8 - i,
    {
        if let Some(rest) = strip_suffix_ignore_case(value, &suffixes[i].0) {
            return (rest, Some(suffixes[i].1));
        }
        i = i + 1;
    }
    (value.clone(), None)
}

/// The URL that a target names.
fn url(target: &Vec<char>) -> (r: Option<Vec<char>>)
    ensures
        match spec_url(target@) {
            Some(u) => r matches Some(v) && v@ == u,
            None => r is None,
        },
{
    if crate::text::has_prefix(target, &chars_of("https://")) || crate::text::has_prefix(
        target,
        &chars_of("http://"),
    ) {
        return Some(target.clone());
    }
    if target.len() == 0 {
        return None;
    }
    let mut i: usize = 0;
    while i < target.len()
        invariant
            i <= target.len(),
            target.len() > 0,
            !crate::text::starts_with(target@, "https://"@),
            !crate::text::starts_with(target@, "http://"@),
            forall|k: int| 0 <= k < i ==> is_host_char(#[trigger] target@[k]),
        decreases target.len() - i,
    {
        let c = target[i];
        let host_char = ('0' <= c && c <= '9') || ('a' <= c && c <= 'z') || ('A' <= c && c <= 'Z')
            || c == '.' || c == '-' || c == '_';
        if !host_char {
            assert(!is_host_char(target@[i as int]));
            return None;
        }
        i = i + 1;
    }
    let host = lowered(target);
    if includes(&host, &chars_of(".")) {
        Some(concat(&chars_of("https://"), &host))
    } else {
        Some(concat(&concat(&chars_of("https://"), &host), &chars_of(".com")))
    }
}

/// `value` without `suffix`, compared in any ASCII case.
fn strip_suffix_ignore_case(value: &Vec<char>, suffix: &Vec<char>) -> (r: Option<Vec<char>>)
    ensures
        match strip_ic(value@, suffix@) {
            Some(rest) => r matches Some(v) && v@ == rest,
            None => r is None,
        },
{
    if value.len() < suffix.len() {
        return None;
    }
    let start = value.len() - suffix.len();
    let tail = slice(value, start, value.len());
    assert(tail@ == value@.skip(start as int));
    if same_ignoring_case(&tail, suffix) {
        Some(slice(value, 0, start))
    } else {
        None
    }
}

proof fn lemma_utf8_prefix_increasing(s: Seq<char>, i: int, j: int)
    requires
        0 <= i < j <= s.len(),
    ensures
        utf8_len(s.take(i)) < utf8_len(s.take(j)),
    decreases j - i,
{
    lemma_utf8_step(s, j - 1);
    if i < j - 1 {
        lemma_utf8_prefix_increasing(s, i, j - 1);
    }
}

/// Whether cutting the last `n` bytes off `value` falls inside a character.
fn cut_falls_inside(value: &Vec<char>, n: usize) -> (b: bool)
    requires
        n <= 64,
    ensures
        b == cut_panics(value@, n as nat),
{
    let s = Ghost(value@);
    let mut k = value.len();
    let mut tail: usize = 0;
    assert(s@.skip(k as int) =~= Seq::<char>::empty());
    while k > 0 && tail < n
        invariant
            s@ == value@,
            k <= value.len(),
            tail <= n + 4,
            n <= 64,
            tail == utf8_len(s@.skip(k as int)),
            k < value.len() ==> tail < n + utf8_width(s@[k as int]),
        decreases k,
    {
        let c = value[k - 1];
        let width: usize = if c <= '\u{7f}' {
            1
        } else if c <= '\u{7ff}' {
            2
        } else if c <= '\u{ffff}' {
            3
        } else {
            4
        };
        proof {
            lemma_utf8_step(s@, k - 1);
        }
        tail = tail + width;
        k = k - 1;
    }
    proof {
        lemma_utf8_split(s@, k as int);
        if tail == n {
            assert(utf8_len(s@.take(k as int)) + n == utf8_len(s@));
        } else if tail < n {
            assert(k == 0);
            assert(s@.take(0) =~= Seq::<char>::empty());
            assert(utf8_len(s@) < n);
        } else {
            assert forall|j: int| 0 <= j <= s@.len() implies utf8_len(#[trigger] s@.take(j)) + n
                != utf8_len(s@) by {
                lemma_utf8_split(s@, j);
                if j < k {
                    lemma_utf8_prefix_increasing(s@, j, k as int);
                } else if j > k {
                    lemma_utf8_prefix_increasing(s@, k as int, j);
                    lemma_utf8_step(s@, k as int);
                    if j > k + 1 {
                        lemma_utf8_prefix_increasing(s@, k + 1, j);
                    }
                }
            }
        }
    }
    tail > n
}

/// The side suffix at position `i` of the list.
fn direction_suffix(i: usize) -> (r: Vec<char>)
    requires
        i < 8,
    ensures
        r@ == direction_suffixes()[i as int].0,
        r@.len() <= 64,
{
    proof {
        reveal_strlit(" on the right");
        reveal_strlit(" to the right");
        reveal_strlit(" on the left");
        reveal_strlit(" to the left");
        reveal_strlit(" at the top");
        reveal_strlit(" on top");
        reveal_strlit(" at the bottom");
        reveal_strlit(" on the bottom");
    }
    match i {
        0 => chars_of(" on the right"),
        1 => chars_of(" to the right"),
        2 => chars_of(" on the left"),
        3 => chars_of(" to the left"),
        4 => chars_of(" at the top"),
        5 => chars_of(" on top"),
        6 => chars_of(" at the bottom"),
        _ => chars_of(" on the bottom"),
    }
}

/// The browser suffix at position `i` of the list.
fn browser_suffix(i: usize) -> (r: Vec<char>)
    requires
        i < 3,
    ensures
        r@ == browser_suffixes()[i as int],
        r@.len() <= 64,
{
    proof {
        reveal_strlit(" in the browser");
        reveal_strlit(" in a browser");
        reveal_strlit(" in browser");
    }
    match i {
        0 => chars_of(" in the browser"),
        1 => chars_of(" in a browser"),
        _ => chars_of(" in browser"),
    }
}

/// Whether the side suffix tests, from position `i` on, cut inside a
/// character before one matches.
fn direction_test_panics(value: &Vec<char>, i: usize) -> (b: bool)
    requires
        i <= 8,
    ensures
        b == direction_panics_from(value@, i as int),
    decreases 8 - i,
{
    if i >= 8 {
        return false;
    }
    let suffix = direction_suffix(i);
    if cut_falls_inside(value, suffix.len()) {
        return true;
    }
    if strip_suffix_ignore_case(value, &suffix).is_some() {
        return false;
    }
    direction_test_panics(value, i + 1)
}

/// Whether the browser suffix tests, from position `i` on, cut inside a
/// character before one matches.
fn browser_test_panics(value: &Vec<char>, i: usize) -> (b: bool)
    requires
        i <= 3,
    ensures
        b == browser_panics_from(value@, i as int),
    decreases 3 - i,
{
    if i >= 3 {
        return false;
    }
    let suffix = browser_suffix(i);
    if cut_falls_inside(value, suffix.len()) {
        return true;
    }
    if strip_suffix_ignore_case(value, &suffix).is_some() {
        return false;
    }
    browser_test_panics(value, i + 1)
}

/// Whether a suffix test of `parse` would cut a request inside a
/// character, as the byte slicing of the tests would (and panic there):
/// `parse` is defined on every other request.
pub fn splits_a_character(request: &str) -> (b: bool)
    ensures
        b == intent_panics(request@),
{
    let r = trim_punct(&trimmed(&chars_of(request)));
    if same_ignoring_case(&r, &chars_of("flash")) {
        return false;
    }
    if r.len() < 5 || !same_ignoring_case(&slice(&r, 0, 5), &chars_of("open ")) {
        return false;
    }
    let after_open = slice(&r, 5, r.len());
    assert(after_open@ == r@.skip(5));
    if direction_test_panics(&after_open, 0) {
        return true;
    }
    let (without_direction, _) = direction(&after_open);
    browser_test_panics(&without_direction, 0)
}

/// Every site that `parse` opens is a web address: `https://` or `http://`
/// begins it.
pub proof fn opened_sites_are_web_addresses(request: Seq<char>)
    ensures
        spec_parse(request) matches Some(IntentSpec::OpenBrowser { url, .. }) ==> (
        crate::text::starts_with(url, "https://"@) || crate::text::starts_with(url, "http://"@)),
{
    if let Some(IntentSpec::OpenBrowser { url, target, .. }) = spec_parse(request) {
        if !crate::text::starts_with(target, "https://"@) && !crate::text::starts_with(
            target,
            "http://"@,
        ) {
            let host = lower_all(target);
            let p = "https://"@;
            if crate::text::contains(host, "."@) {
                assert((p + host).take(p.len() as int) =~= p);
            } else {
                assert((p + host + ".com"@).take(p.len() as int) =~= p);
            }
        }
    }
}

/// Where `x` is long enough to end with `suffix`, the character at `k` of that
/// ending differs from the suffix's in any ASCII case: the suffix is not cut.
proof fn lemma_strip_misses(x: Seq<char>, suffix: Seq<char>, k: int)
    requires
        0 <= k < suffix.len(),
        x.len() >= suffix.len() ==> ascii_lower(x[x.len() - suffix.len() + k]) != ascii_lower(
            suffix[k],
        ),
    ensures
        strip_ic(x, suffix) is None,
{
    if x.len() >= suffix.len() {
        let tail = x.skip(x.len() - suffix.len());
        assert(tail[k] == x[x.len() - suffix.len() + k]);
    }
}

/// A value that ends with the side suffix at position `j` loses that suffix
/// and takes its side: no suffix tried before it matches.
proof fn lemma_side_suffix(value: Seq<char>, j: int)
    requires
        0 <= j < 8,
    ensures
        direction_from(value + direction_suffixes()[j].0, 0) == (
            value,
            Some(direction_suffixes()[j].1),
        ),
{
    reveal_strlit(" on the right");
    reveal_strlit(" to the right");
    reveal_strlit(" on the left");
    reveal_strlit(" to the left");
    reveal_strlit(" at the top");
    reveal_strlit(" on top");
    reveal_strlit(" at the bottom");
    reveal_strlit(" on the bottom");
    let x = value + direction_suffixes()[j].0;
    let t = direction_suffixes()[j].0;
    assert(x.skip(value.len() as int) =~= t);
    assert(x.take(value.len() as int) =~= value);
    assert(x.len() - t.len() == value.len());
    assert(strip_ic(x, t) == Some(value));
    assert(direction_from(x, j) == (value, Some(direction_suffixes()[j].1)));
    if j == 1 {
        lemma_strip_misses(x, direction_suffixes()[0].0, 1);
        assert(direction_from(x, 0) == direction_from(x, 1));
    }
    if j == 2 {
        lemma_strip_misses(x, direction_suffixes()[0].0, 1);
        lemma_strip_misses(x, direction_suffixes()[1].0, 1);
        assert(direction_from(x, 1) == direction_from(x, 2));
        assert(direction_from(x, 0) == direction_from(x, 1));
    }
    if j == 3 {
        lemma_strip_misses(x, direction_suffixes()[0].0, 1);
        lemma_strip_misses(x, direction_suffixes()[1].0, 1);
        lemma_strip_misses(x, direction_suffixes()[2].0, 1);
        assert(direction_from(x, 2) == direction_from(x, 3));
        assert(direction_from(x, 1) == direction_from(x, 2));
        assert(direction_from(x, 0) == direction_from(x, 1));
    }
    if j == 4 {
        lemma_strip_misses(x, direction_suffixes()[0].0, 2);
        lemma_strip_misses(x, direction_suffixes()[1].0, 2);
        lemma_strip_misses(x, direction_suffixes()[2].0, 1);
        lemma_strip_misses(x, direction_suffixes()[3].0, 1);
        assert(direction_from(x, 3) == direction_from(x, 4));
        assert(direction_from(x, 2) == direction_from(x, 3));
        assert(direction_from(x, 1) == direction_from(x, 2));
        assert(direction_from(x, 0) == direction_from(x, 1));
    }
    if j == 5 {
        lemma_strip_misses(x, direction_suffixes()[0].0, 6);
        lemma_strip_misses(x, direction_suffixes()[1].0, 6);
        lemma_strip_misses(x, direction_suffixes()[2].0, 5);
        lemma_strip_misses(x, direction_suffixes()[3].0, 5);
        lemma_strip_misses(x, direction_suffixes()[4].0, 4);
        assert(direction_from(x, 4) == direction_from(x, 5));
        assert(direction_from(x, 3) == direction_from(x, 4));
        assert(direction_from(x, 2) == direction_from(x, 3));
        assert(direction_from(x, 1) == direction_from(x, 2));
        assert(direction_from(x, 0) == direction_from(x, 1));
    }
    if j == 6 {
        lemma_strip_misses(x, direction_suffixes()[0].0, 0);
        lemma_strip_misses(x, direction_suffixes()[1].0, 0);
        lemma_strip_misses(x, direction_suffixes()[2].0, 0);
        lemma_strip_misses(x, direction_suffixes()[3].0, 0);
        lemma_strip_misses(x, direction_suffixes()[4].0, 1);
        lemma_strip_misses(x, direction_suffixes()[5].0, 1);
        assert(direction_from(x, 5) == direction_from(x, 6));
        assert(direction_from(x, 4) == direction_from(x, 5));
        assert(direction_from(x, 3) == direction_from(x, 4));
        assert(direction_from(x, 2) == direction_from(x, 3));
        assert(direction_from(x, 1) == direction_from(x, 2));
        assert(direction_from(x, 0) == direction_from(x, 1));
    }
    if j == 7 {
        lemma_strip_misses(x, direction_suffixes()[0].0, 0);
        lemma_strip_misses(x, direction_suffixes()[1].0, 0);
        lemma_strip_misses(x, direction_suffixes()[2].0, 0);
        lemma_strip_misses(x, direction_suffixes()[3].0, 0);
        lemma_strip_misses(x, direction_suffixes()[4].0, 1);
        lemma_strip_misses(x, direction_suffixes()[5].0, 1);
        lemma_strip_misses(x, direction_suffixes()[6].0, 1);
        assert(direction_from(x, 6) == direction_from(x, 7));
        assert(direction_from(x, 5) == direction_from(x, 6));
        assert(direction_from(x, 4) == direction_from(x, 5));
        assert(direction_from(x, 3) == direction_from(x, 4));
        assert(direction_from(x, 2) == direction_from(x, 3));
        assert(direction_from(x, 1) == direction_from(x, 2));
        assert(direction_from(x, 0) == direction_from(x, 1));
    }
}

/// The side of a request is the side its suffix names: a value followed by
/// " on the left" or " to the left" is read as that value on the left, by
/// " on the right" or " to the right" on the right, by " at the top" or
/// " on top" above, and by " at the bottom" or " on the bottom" below.
pub proof fn sides_are_the_ones_named(value: Seq<char>)
    ensures
        direction_from(value + " on the right"@, 0) == (value, Some(Direction::Right)),
        direction_from(value + " to the right"@, 0) == (value, Some(Direction::Right)),
        direction_from(value + " on the left"@, 0) == (value, Some(Direction::Left)),
        direction_from(value + " to the left"@, 0) == (value, Some(Direction::Left)),
        direction_from(value + " at the top"@, 0) == (value, Some(Direction::Up)),
        direction_from(value + " on top"@, 0) == (value, Some(Direction::Up)),
        direction_from(value + " at the bottom"@, 0) == (value, Some(Direction::Down)),
        direction_from(value + " on the bottom"@, 0) == (value, Some(Direction::Down)),
{
    lemma_side_suffix(value, 0);
    lemma_side_suffix(value, 1);
    lemma_side_suffix(value, 2);
    lemma_side_suffix(value, 3);
    lemma_side_suffix(value, 4);
    lemma_side_suffix(value, 5);
    lemma_side_suffix(value, 6);
    lemma_side_suffix(value, 7);
}

/// A request "open <site>" followed by the side suffix at position `j` is
/// opened, if at all, on that suffix's side.
proof fn lemma_open_on_side(site: Seq<char>, j: int)
    requires
        0 <= j < 8,
    ensures
        spec_parse("open "@ + site + direction_suffixes()[j].0) matches Some(
            IntentSpec::OpenBrowser { direction, .. },
        ) ==> direction == Some(direction_suffixes()[j].1),
{
    reveal_strlit(" on the right");
    reveal_strlit(" to the right");
    reveal_strlit(" on the left");
    reveal_strlit(" to the left");
    reveal_strlit(" at the top");
    reveal_strlit(" on top");
    reveal_strlit(" at the bottom");
    reveal_strlit(" on the bottom");
    reveal_strlit("open ");
    let t = direction_suffixes()[j].0;
    let request = "open "@ + site + t;
    assert(request[0] == 'o');
    assert(request.last() == t.last());
    assert(trim_start(request) == request);
    assert(trim_end(request) == request);
    assert(trim_end_punct(request) == request);
    assert(cleaned(request) == request);
    assert(request.skip(5) =~= site + t);
    lemma_side_suffix(site, j);
}

/// "open <site> on the left" (or "to the left") opens the site on the left,
/// and likewise for the right, the top and the bottom: where such a request
/// is parsed, the side of the browser is the one the request names.
pub proof fn requests_open_on_the_side_named(site: Seq<char>)
    ensures
        spec_parse("open "@ + site + " on the right"@) matches Some(
            IntentSpec::OpenBrowser { direction, .. },
        ) ==> direction == Some(Direction::Right),
        spec_parse("open "@ + site + " to the right"@) matches Some(
            IntentSpec::OpenBrowser { direction, .. },
        ) ==> direction == Some(Direction::Right),
        spec_parse("open "@ + site + " on the left"@) matches Some(
            IntentSpec::OpenBrowser { direction, .. },
        ) ==> direction == Some(Direction::Left),
        spec_parse("open "@ + site + " to the left"@) matches Some(
            IntentSpec::OpenBrowser { direction, .. },
        ) ==> direction == Some(Direction::Left),
        spec_parse("open "@ + site + " at the top"@) matches Some(
            IntentSpec::OpenBrowser { direction, .. },
        ) ==> direction == Some(Direction::Up),
        spec_parse("open "@ + site + " on top"@) matches Some(
            IntentSpec::OpenBrowser { direction, .. },
        ) ==> direction == Some(Direction::Up),
        spec_parse("open "@ + site + " at the bottom"@) matches Some(
            IntentSpec::OpenBrowser { direction, .. },
        ) ==> direction == Some(Direction::Down),
        spec_parse("open "@ + site + " on the bottom"@) matches Some(
            IntentSpec::OpenBrowser { direction, .. },
        ) ==> direction == Some(Direction::Down),
{
    lemma_open_on_side(site, 0);
    lemma_open_on_side(site, 1);
    lemma_open_on_side(site, 2);
    lemma_open_on_side(site, 3);
    lemma_open_on_side(site, 4);
    lemma_open_on_side(site, 5);
    lemma_open_on_side(site, 6);
    lemma_open_on_side(site, 7);
}

} // verus!
