//! The `server.properties` record: the fields of a Bedrock server's
//! configuration file that the Pong encoder needs, and the parser that
//! extracts them.
//!
//! The file is a `key=value` text: one assignment per line, `#` starting a
//! comment, whitespace around keys ignored, a repeated key overwritten by its
//! last assignment. Only six keys are read; every other line is ignored.

use vstd::prelude::*;
use vstd::string::StrSliceExecFns;
use vstd::string::StringExecFns;

use crate::error::ConfigError;

verus! {

/// A Bedrock game mode. The wire descriptor renders it as its lowercase
/// textual name.
#[derive(Clone, Copy, Debug, PartialEq, Eq, Structural)]
pub enum Gamemode {
    Survival,
    Creative,
    Adventure,
}

/// The lowercase name under which a game mode travels in the wire descriptor
/// and in `server.properties`.
pub open spec fn spec_gamemode_name(g: Gamemode) -> Seq<char> {
    match g {
        Gamemode::Survival => "survival"@,
        Gamemode::Creative => "creative"@,
        Gamemode::Adventure => "adventure"@,
    }
}

/// What parsing a game mode name returns: the matching mode for one of the
/// three lowercase names, and `BadGamemode` for every other text.
pub open spec fn spec_gamemode_of(s: Seq<char>) -> Result<Gamemode, ConfigError> {
    if s == "creative"@ {
        Ok(Gamemode::Creative)
    } else if s == "survival"@ {
        Ok(Gamemode::Survival)
    } else if s == "adventure"@ {
        Ok(Gamemode::Adventure)
    } else {
        Err(ConfigError::BadGamemode)
    }
}

/// No game mode name contains the semicolon that delimits the wire
/// descriptor's fields.
pub proof fn lemma_gamemode_name_semi_free(g: Gamemode)
    ensures
        !spec_has_semi(spec_gamemode_name(g)),
{
    reveal_strlit("survival");
    reveal_strlit("creative");
    reveal_strlit("adventure");
    let s = spec_gamemode_name(g);
    assert forall|i: int| 0 <= i < s.len() implies s[i] != ';' by {
        match g {
            Gamemode::Survival => {
                assert("survival"@[i] != ';');
            },
            Gamemode::Creative => {
                assert("creative"@[i] != ';');
            },
            Gamemode::Adventure => {
                assert("adventure"@[i] != ';');
            },
        }
    }
}

/// String equality, decided through owned copies so that the result is
/// known to be equality of the two views.
fn str_eq(a: &str, b: &str) -> (r: bool)
    ensures
        r == (a@ == b@),
{
    let x: String = a.to_owned();
    let y: String = b.to_owned();
    x == y
}

impl Gamemode {
    /// Parses the lowercase game mode name used by `server.properties`.
    pub fn from_str(mode: &str) -> (r: Result<Gamemode, ConfigError>)
        ensures
            r == spec_gamemode_of(mode@),
    {
        if str_eq(mode, "creative") {
            Ok(Gamemode::Creative)
        } else if str_eq(mode, "survival") {
            Ok(Gamemode::Survival)
        } else if str_eq(mode, "adventure") {
            Ok(Gamemode::Adventure)
        } else {
            Err(ConfigError::BadGamemode)
        }
    }

    /// The lowercase name rendered into the wire descriptor.
    pub fn to_string(&self) -> (r: String)
        ensures
            r@ == spec_gamemode_name(*self),
    {
        match self {
            Gamemode::Survival => String::from_str("survival"),
            Gamemode::Creative => String::from_str("creative"),
            Gamemode::Adventure => String::from_str("adventure"),
        }
    }
}

impl Default for Gamemode {
    /// The mode assumed when the configuration names none.
    fn default() -> (r: Gamemode)
        ensures
            r == Gamemode::Creative,
    {
        Gamemode::Creative
    }
}

/// The fields read out of a `server.properties` file.
///
/// `server_name` and `level_name` are guaranteed free of ASCII semicolons by
/// the parser, because both end up inside the semicolon-delimited wire
/// descriptor. `max_players` is parsed but the codec renders a fixed
/// placeholder instead of it.
#[derive(Debug, PartialEq)]
pub struct ServerProperties {
    pub server_name: String,
    pub level_name: String,
    pub gamemode: Gamemode,
    pub max_players: usize,
    pub port4: u16,
    pub port6: u16,
}

/// The whitespace the parser strips around keys and after values: the ASCII
/// characters with the Unicode `White_Space` property.
pub open spec fn spec_is_ws(c: char) -> bool {
    c == ' ' || c == '\t' || c == '\n' || c == '\u{b}' || c == '\u{c}' || c == '\r'
}

/// The first index of `c` in `s`, if any.
pub open spec fn spec_find(s: Seq<char>, c: char) -> Option<int>
    decreases s.len(),
{
    if s.len() == 0 {
        None
    } else if s[0] == c {
        Some(0)
    } else {
        match spec_find(s.drop_first(), c) {
            Some(i) => Some(i + 1),
            None => None,
        }
    }
}

/// What [`spec_find`] returns: the least index holding `c`, if `c` occurs.
pub proof fn lemma_find(s: Seq<char>, c: char)
    ensures
        match spec_find(s, c) {
            Some(i) => 0 <= i < s.len() && s[i] == c && (forall|j: int| 0 <= j < i ==> s[j] != c),
            None => forall|j: int| 0 <= j < s.len() ==> s[j] != c,
        },
    decreases s.len(),
{
    if s.len() == 0 {
    } else if s[0] == c {
    } else {
        lemma_find(s.drop_first(), c);
        assert(forall|j: int| 1 <= j < s.len() ==> s[j] == s.drop_first()[j - 1]);
    }
}

/// `s` without its leading whitespace.
pub open spec fn spec_trim_start(s: Seq<char>) -> Seq<char>
    decreases s.len(),
{
    if s.len() > 0 && spec_is_ws(s[0]) {
        spec_trim_start(s.drop_first())
    } else {
        s
    }
}

/// `s` without its trailing whitespace.
pub open spec fn spec_trim_end(s: Seq<char>) -> Seq<char>
    decreases s.len(),
{
    if s.len() > 0 && spec_is_ws(s.last()) {
        spec_trim_end(s.drop_last())
    } else {
        s
    }
}

/// `s` without leading and trailing whitespace.
pub open spec fn spec_trim(s: Seq<char>) -> Seq<char> {
    spec_trim_end(spec_trim_start(s))
}

/// Trimming the start keeps exactly the suffix from the first non-blank on.
proof fn lemma_trim_start_at(s: Seq<char>, a: int)
    requires
        0 <= a <= s.len(),
        forall|j: int| 0 <= j < a ==> spec_is_ws(s[j]),
        a < s.len() ==> !spec_is_ws(s[a]),
    ensures
        spec_trim_start(s) == s.skip(a),
    decreases a,
{
    if a == 0 {
        assert(s.skip(0) =~= s);
    } else {
        assert(spec_is_ws(s[0]));
        lemma_trim_start_at(s.drop_first(), a - 1);
        assert(s.drop_first().skip(a - 1) =~= s.skip(a));
    }
}

/// Trimming the end keeps exactly the prefix up to the last non-blank.
proof fn lemma_trim_end_at(s: Seq<char>, b: int)
    requires
        0 <= b <= s.len(),
        forall|j: int| b <= j < s.len() ==> spec_is_ws(s[j]),
        b > 0 ==> !spec_is_ws(s[b - 1]),
    ensures
        spec_trim_end(s) == s.take(b),
    decreases s.len(),
{
    if b == s.len() {
        assert(s.take(b) =~= s);
    } else {
        assert(spec_is_ws(s.last()));
        lemma_trim_end_at(s.drop_last(), b);
        assert(s.drop_last().take(b) =~= s.take(b));
    }
}

/// `s` split at every `\n`, as `str::lines` splits: a trailing newline ends
/// the last line instead of opening an empty one.
pub open spec fn spec_lines(s: Seq<char>) -> Seq<Seq<char>>
    decreases s.len(),
{
    if s.len() == 0 {
        Seq::empty()
    } else {
        match spec_find(s, '\n') {
            Some(i) => if 0 <= i < s.len() {
                seq![s.take(i)] + spec_lines(s.skip(i + 1))
            } else {
                seq![s]
            },
            None => seq![s],
        }
    }
}

/// The key/value pair a line contributes: the part before any `#` comment,
/// split at its first `=`; the key is trimmed on both sides, the value keeps
/// everything after the `=` with only trailing whitespace trimmed. A line
/// without `=` contributes nothing.
pub open spec fn spec_line_kv(line: Seq<char>) -> Option<(Seq<char>, Seq<char>)> {
    let content = match spec_find(line, '#') {
        Some(h) => line.take(h),
        None => line,
    };
    match spec_find(content, '=') {
        Some(e) => Some((spec_trim(content.take(e)), spec_trim_end(content.skip(e + 1)))),
        None => None,
    }
}

/// The value of the last line assigning `key`, mirroring how a repeated key
/// overwrites its earlier assignments.
pub open spec fn spec_lookup(lines: Seq<Seq<char>>, key: Seq<char>) -> Option<Seq<char>>
    decreases lines.len(),
{
    if lines.len() == 0 {
        None
    } else {
        match spec_line_kv(lines.last()) {
            Some(kv) => if kv.0 == key {
                Some(kv.1)
            } else {
                spec_lookup(lines.drop_last(), key)
            },
            None => spec_lookup(lines.drop_last(), key),
        }
    }
}

/// The configured value of `key`, or `default` where no line assigns it.
pub open spec fn spec_value_or(lines: Seq<Seq<char>>, key: Seq<char>, default: Seq<char>) -> Seq<
    char,
> {
    match spec_lookup(lines, key) {
        Some(v) => v,
        None => default,
    }
}

/// Whether `c` is a decimal digit.
pub open spec fn spec_is_digit(c: char) -> bool {
    48 <= c as u32 && c as u32 <= 57
}

/// The number the digit characters denote, most significant first.
pub open spec fn spec_digits_value(s: Seq<char>) -> nat
    decreases s.len(),
{
    if s.len() == 0 {
        0
    } else {
        spec_digits_value(s.drop_last()) * 10 + (s.last() as u32 - 48) as nat
    }
}

/// Whether every character of `s` is a decimal digit.
pub open spec fn spec_all_digits(s: Seq<char>) -> bool {
    forall|i: int| 0 <= i < s.len() ==> spec_is_digit(#[trigger] s[i])
}

/// What Rust's unsigned `parse` accepts: an optional leading `+`, then at
/// least one decimal digit. The value is unbounded here; each caller checks
/// its own range.
pub open spec fn spec_parse_uint(s: Seq<char>) -> Option<nat> {
    let digits = if s.len() > 0 && s[0] == '+' {
        s.drop_first()
    } else {
        s
    };
    if digits.len() > 0 && spec_all_digits(digits) {
        Some(spec_digits_value(digits))
    } else {
        None
    }
}

/// Whether the text contains the ASCII semicolon that delimits the wire
/// descriptor's fields.
pub open spec fn spec_has_semi(s: Seq<char>) -> bool {
    exists|i: int| 0 <= i < s.len() && s[i] == ';'
}

/// The views of a vector of char vectors.
pub open spec fn views_of(v: Seq<Vec<char>>) -> Seq<Seq<char>> {
    Seq::new(v.len(), |i: int| v[i]@)
}

/// The `server-name` value of the text, or its stock default.
pub open spec fn spec_props_name(s: Seq<char>) -> Seq<char> {
    spec_value_or(spec_lines(s), "server-name"@, "Minecraft Server"@)
}

/// The `level-name` value of the text, or its stock default.
pub open spec fn spec_props_level(s: Seq<char>) -> Seq<char> {
    spec_value_or(spec_lines(s), "level-name"@, "Bedrock server"@)
}

/// The `gamemode` value of the text; no default, an absent key is invalid.
pub open spec fn spec_props_gamemode(s: Seq<char>) -> Seq<char> {
    spec_value_or(spec_lines(s), "gamemode"@, Seq::empty())
}

/// The `max-players` value of the text, or `1`.
pub open spec fn spec_props_max_players(s: Seq<char>) -> Seq<char> {
    spec_value_or(spec_lines(s), "max-players"@, "1"@)
}

/// The `server-port` value of the text; no default, an absent key is invalid.
pub open spec fn spec_props_port4(s: Seq<char>) -> Seq<char> {
    spec_value_or(spec_lines(s), "server-port"@, Seq::empty())
}

/// The `server-portv6` value of the text; no default, an absent key is
/// invalid.
pub open spec fn spec_props_port6(s: Seq<char>) -> Seq<char> {
    spec_value_or(spec_lines(s), "server-portv6"@, Seq::empty())
}

/// Whether `s` parses as an unsigned decimal no larger than `bound`.
pub open spec fn spec_uint_in_range(s: Seq<char>, bound: nat) -> bool {
    match spec_parse_uint(s) {
        Some(n) => n <= bound,
        None => false,
    }
}

/// Whether every field of the text is valid, and the first error — in the
/// order server name, level name, gamemode, max-players, IPv4 port, IPv6
/// port — where one is not.
pub open spec fn spec_props_check(s: Seq<char>) -> Result<(), ConfigError> {
    if spec_has_semi(spec_props_name(s)) {
        Err(ConfigError::SemicolonInServerName)
    } else if spec_has_semi(spec_props_level(s)) {
        Err(ConfigError::SemicolonInLevelName)
    } else if spec_gamemode_of(spec_props_gamemode(s)) is Err {
        Err(ConfigError::BadGamemode)
    } else if !spec_uint_in_range(spec_props_max_players(s), usize::MAX as nat) {
        Err(ConfigError::BadMaxPlayers)
    } else if !spec_uint_in_range(spec_props_port4(s), 0xFFFF) {
        Err(ConfigError::BadPortV4)
    } else if !spec_uint_in_range(spec_props_port6(s), 0xFFFF) {
        Err(ConfigError::BadPortV6)
    } else {
        Ok(())
    }
}

/// The characters of `s`, one by one.
fn char_vec(s: &str) -> (r: Vec<char>)
    ensures
        r@ == s@,
{
    let n = s.unicode_len();
    let mut r: Vec<char> = Vec::new();
    let mut i: usize = 0;
    while i < n
        invariant
            i <= n,
            n == s@.len(),
            r@ =~= s@.take(i as int),
        decreases n - i,
    {
        r.push(s.get_char(i));
        i = i + 1;
    }
    proof {
        assert(s@.take(n as int) =~= s@);
    }
    r
}

/// A copy of `v[from..to]`.
fn subvec(v: &Vec<char>, from: usize, to: usize) -> (r: Vec<char>)
    requires
        from <= to <= v@.len(),
    ensures
        r@ == v@.subrange(from as int, to as int),
{
    let mut r: Vec<char> = Vec::new();
    let mut i: usize = from;
    while i < to
        invariant
            from <= i <= to <= v@.len(),
            r@ =~= v@.subrange(from as int, i as int),
        decreases to - i,
    {
        r.push(v[i]);
        proof {
            assert(r@ =~= v@.subrange(from as int, i + 1 as int));
        }
        i = i + 1;
    }
    r
}

/// Element-by-element equality of two char vectors.
fn chars_eq(a: &Vec<char>, b: &Vec<char>) -> (r: bool)
    ensures
        r == (a@ == b@),
{
    if a.len() != b.len() {
        return false;
    }
    let mut i: usize = 0;
    while i < a.len()
        invariant
            i <= a@.len(),
            a@.len() == b@.len(),
            forall|j: int| 0 <= j < i ==> a@[j] == b@[j],
        decreases a@.len() - i,
    {
        if a[i] != b[i] {
            return false;
        }
        i = i + 1;
    }
    proof {
        assert(a@ =~= b@);
    }
    true
}

/// Whether `v` equals the characters of `s`.
fn chars_eq_str(v: &Vec<char>, s: &str) -> (r: bool)
    ensures
        r == (v@ == s@),
{
    let sv = char_vec(s);
    chars_eq(v, &sv)
}

/// The first position of `c` in `v`, if any.
fn find_char(v: &Vec<char>, c: char) -> (r: Option<usize>)
    ensures
        match r {
            Some(i) => spec_find(v@, c) == Some(i as int),
            None => spec_find(v@, c) is None,
        },
{
    proof {
        lemma_find(v@, c);
    }
    let mut i: usize = 0;
    while i < v.len()
        invariant
            i <= v@.len(),
            forall|j: int| 0 <= j < i ==> v@[j] != c,
        decreases v@.len() - i,
    {
        if v[i] == c {
            proof {
                lemma_find(v@, c);
                match spec_find(v@, c) {
                    Some(k) => {
                        if k < i as int {
                            assert(v@[k] != c);
                        }
                        if k > i as int {
                            assert(v@[i as int] != c);
                        }
                    },
                    None => {
                        assert(v@[i as int] != c);
                    },
                }
            }
            return Some(i);
        }
        i = i + 1;
    }
    None
}

/// Whether the parser treats `c` as whitespace.
fn is_ws_char(c: char) -> (r: bool)
    ensures
        r == spec_is_ws(c),
{
    c == ' ' || c == '\t' || c == '\n' || c == '\u{b}' || c == '\u{c}' || c == '\r'
}

/// `v` without its trailing whitespace.
fn trim_end_chars(v: &Vec<char>) -> (r: Vec<char>)
    ensures
        r@ == spec_trim_end(v@),
{
    let mut b: usize = v.len();
    while b > 0 && is_ws_char(v[b - 1])
        invariant
            b <= v@.len(),
            forall|j: int| b <= j < v@.len() ==> spec_is_ws(v@[j]),
        decreases b,
    {
        b = b - 1;
    }
    proof {
        lemma_trim_end_at(v@, b as int);
    }
    subvec(v, 0, b)
}

/// `v` without leading and trailing whitespace.
fn trim_chars(v: &Vec<char>) -> (r: Vec<char>)
    ensures
        r@ == spec_trim(v@),
{
    let mut a: usize = 0;
    while a < v.len() && is_ws_char(v[a])
        invariant
            a <= v@.len(),
            forall|j: int| 0 <= j < a ==> spec_is_ws(v@[j]),
        decreases v@.len() - a,
    {
        a = a + 1;
    }
    proof {
        lemma_trim_start_at(v@, a as int);
    }
    let started = subvec(v, a, v.len());
    trim_end_chars(&started)
}

/// Splits at every `\n`, as [`spec_lines`] describes.
fn split_lines(v: &Vec<char>) -> (r: Vec<Vec<char>>)
    ensures
        views_of(r@) == spec_lines(v@),
    decreases v@.len(),
{
    if v.len() == 0 {
        let r: Vec<Vec<char>> = Vec::new();
        proof {
            assert(views_of(r@) =~= spec_lines(v@));
        }
        r
    } else {
        match find_char(v, '\n') {
            Some(i) => {
                proof {
                    lemma_find(v@, '\n');
                }
                let first = subvec(v, 0, i);
                let rest = subvec(v, i + 1, v.len());
                let mut tail = split_lines(&rest);
                let mut r: Vec<Vec<char>> = Vec::new();
                r.push(first);
                r.append(&mut tail);
                proof {
                    assert(v@.take(i as int) =~= v@.subrange(0, i as int));
                    assert(v@.skip(i + 1) =~= v@.subrange(i + 1, v@.len() as int));
                    assert(views_of(r@) =~= spec_lines(v@));
                }
                r
            },
            None => {
                let mut r: Vec<Vec<char>> = Vec::new();
                let whole = subvec(v, 0, v.len());
                r.push(whole);
                proof {
                    assert(v@.subrange(0, v@.len() as int) =~= v@);
                    assert(views_of(r@) =~= spec_lines(v@));
                }
                r
            },
        }
    }
}

/// The key/value pair of one line, as [`spec_line_kv`] describes.
fn line_kv(line: &Vec<char>) -> (r: Option<(Vec<char>, Vec<char>)>)
    ensures
        match r {
            Some(kv) => spec_line_kv(line@) == Some((kv.0@, kv.1@)),
            None => spec_line_kv(line@) is None,
        },
{
    let content = match find_char(line, '#') {
        Some(h) => {
            proof {
                lemma_find(line@, '#');
            }
            subvec(line, 0, h)
        },
        None => subvec(line, 0, line.len()),
    };
    proof {
        assert(line@.subrange(0, line@.len() as int) =~= line@);
        match spec_find(line@, '#') {
            Some(h) => {
                assert(line@.take(h) =~= line@.subrange(0, h));
            },
            None => {},
        }
    }
    match find_char(&content, '=') {
        Some(e) => {
            proof {
                lemma_find(content@, '=');
            }
            let key_raw = subvec(&content, 0, e);
            let key = trim_chars(&key_raw);
            let value_raw = subvec(&content, e + 1, content.len());
            let value = trim_end_chars(&value_raw);
            proof {
                assert(content@.take(e as int) =~= content@.subrange(0, e as int));
                assert(content@.skip(e + 1) =~= content@.subrange(e + 1, content@.len() as int));
            }
            Some((key, value))
        },
        None => None,
    }
}

/// The configured value of `key` among `lines`, or `default`, as
/// [`spec_value_or`] describes.
fn value_or(lines: &Vec<Vec<char>>, key: &str, default: &str) -> (r: Vec<char>)
    ensures
        r@ == spec_value_or(views_of(lines@), key@, default@),
{
    let keyv = char_vec(key);
    let mut found: Option<Vec<char>> = None;
    let mut i: usize = 0;
    while i < lines.len()
        invariant
            i <= lines@.len(),
            keyv@ == key@,
            match found {
                Some(v) => spec_lookup(views_of(lines@).take(i as int), key@) == Some(v@),
                None => spec_lookup(views_of(lines@).take(i as int), key@) is None,
            },
        decreases lines@.len() - i,
    {
        let ghost prefix = views_of(lines@).take(i as int);
        let ghost prefix1 = views_of(lines@).take(i + 1 as int);
        match line_kv(&lines[i]) {
            Some(kv) => {
                let (k, v) = kv;
                if chars_eq(&k, &keyv) {
                    found = Some(v);
                }
            },
            None => {},
        }
        proof {
            assert(prefix1.drop_last() =~= prefix);
            assert(prefix1.last() == lines@[i as int]@);
        }
        i = i + 1;
    }
    proof {
        assert(views_of(lines@).take(lines@.len() as int) =~= views_of(lines@));
    }
    match found {
        Some(v) => v,
        None => char_vec(default),
    }
}

/// Whether `v` holds an ASCII semicolon.
fn has_semi(v: &Vec<char>) -> (r: bool)
    ensures
        r == spec_has_semi(v@),
{
    let mut i: usize = 0;
    while i < v.len()
        invariant
            i <= v@.len(),
            forall|j: int| 0 <= j < i ==> v@[j] != ';',
        decreases v@.len() - i,
    {
        if v[i] == ';' {
            return true;
        }
        i = i + 1;
    }
    false
}

/// The game mode a value text names, as [`spec_gamemode_of`] describes.
fn gamemode_of_chars(v: &Vec<char>) -> (r: Result<Gamemode, ConfigError>)
    ensures
        r == spec_gamemode_of(v@),
{
    if chars_eq_str(v, "creative") {
        Ok(Gamemode::Creative)
    } else if chars_eq_str(v, "survival") {
        Ok(Gamemode::Survival)
    } else if chars_eq_str(v, "adventure") {
        Ok(Gamemode::Adventure)
    } else {
        Err(ConfigError::BadGamemode)
    }
}

/// Once a digit string's value passes a bound, appending digits keeps it
/// past the bound.
proof fn lemma_digits_value_step(s: Seq<char>, k: int)
    requires
        0 <= k < s.len(),
    ensures
        spec_digits_value(s.take(k + 1)) == spec_digits_value(s.take(k)) * 10 + (s[k] as u32
            - 48) as nat,
{
    assert(s.take(k + 1).drop_last() =~= s.take(k));
    assert(s.take(k + 1).last() == s[k]);
}

/// The number `v` denotes, when it is well-formed and its value is at most
/// `bound`; `None` both for a malformed text and for a too-large value.
fn parse_uint_bounded(v: &Vec<char>, bound: u64) -> (r: Option<u64>)
    ensures
        match r {
            Some(n) => spec_parse_uint(v@) == Some(n as nat) && n <= bound,
            None => match spec_parse_uint(v@) {
                Some(m) => m > bound,
                None => true,
            },
        },
{
    let start: usize = if v.len() > 0 && v[0] == '+' {
        1
    } else {
        0
    };
    let ghost digits = if v@.len() > 0 && v@[0] == '+' {
        v@.drop_first()
    } else {
        v@
    };
    proof {
        assert(digits =~= v@.skip(start as int));
    }
    if start >= v.len() {
        return None;
    }
    let mut val: u128 = 0;
    let mut over: bool = false;
    let mut i: usize = start;
    while i < v.len()
        invariant
            start <= i <= v@.len(),
            (if v@.len() > 0 && v@[0] == '+' {
                start == 1
            } else {
                start == 0
            }),
            digits == v@.skip(start as int),
            forall|j: int| 0 <= j < i - start ==> spec_is_digit(#[trigger] digits[j]),
            bound < 0x10000000000000000,
            if over {
                spec_digits_value(digits.take(i - start)) > bound
            } else {
                val == spec_digits_value(digits.take(i - start)) && val <= bound
            },
        decreases v@.len() - i,
    {
        let c = v[i];
        let d: u32 = c as u32;
        if d < 48 || d > 57 {
            proof {
                assert(digits[i - start] == v@[i as int]);
                assert(!spec_is_digit(digits[i - start]));
                assert(0 <= i - start < digits.len());
                assert(!spec_all_digits(digits));
                assert(spec_parse_uint(v@) is None);
            }
            return None;
        }
        proof {
            lemma_digits_value_step(digits, i - start);
        }
        if over {
            proof {
                assert(spec_digits_value(digits.take(i - start + 1)) >= spec_digits_value(
                    digits.take(i - start),
                ) * 10);
                assert(spec_digits_value(digits.take(i - start)) * 10 >= spec_digits_value(
                    digits.take(i - start),
                ));
            }
        } else {
            let next: u128 = val * 10 + (d - 48) as u128;
            if next > bound as u128 {
                over = true;
            } else {
                val = next;
            }
        }
        proof {
            assert(digits[i - start] == v@[i as int]);
        }
        i = i + 1;
    }
    proof {
        assert(digits.take(v@.len() - start) =~= digits);
    }
    if over {
        None
    } else {
        proof {
            assert(val <= bound < 0x10000000000000000);
        }
        Some(val as u64)
    }
}

/// Appends the characters of `v` to `s`.
///
/// Relies on `String::push`: it appends exactly the one character.
#[verifier::external_body]
fn string_push_char(s: &mut String, c: char)
    ensures
        final (s)@ == old(s)@.push(c),
{
    s.push(c);
}

/// A `String` whose characters are exactly `v`.
fn string_from_chars(v: &Vec<char>) -> (r: String)
    ensures
        r@ == v@,
{
    let mut s = String::new();
    let mut i: usize = 0;
    while i < v.len()
        invariant
            i <= v@.len(),
            s@ =~= v@.take(i as int),
        decreases v@.len() - i,
    {
        string_push_char(&mut s, v[i]);
        proof {
            assert(v@.take(i as int).push(v@[i as int]) =~= v@.take(i + 1 as int));
        }
        i = i + 1;
    }
    proof {
        assert(v@.take(v@.len() as int) =~= v@);
    }
    s
}

impl ServerProperties {
    /// Parses a `server.properties` text.
    ///
    /// Succeeds exactly when both names are free of semicolons, the gamemode
    /// is one of the three known names, and `max-players` and the two ports
    /// parse as in-range unsigned decimals; the first offending field — in
    /// that order — names the error otherwise. Absent keys fall back to
    /// their defaults first: stock names, one player, and no default at all
    /// for `gamemode` and the ports, whose absence is therefore an error.
    pub fn from_str(config: &str) -> (r: Result<ServerProperties, ConfigError>)
        ensures
            r is Ok <==> spec_props_check(config@) is Ok,
            r matches Err(e) ==> Err::<(), ConfigError>(e) == spec_props_check(config@),
            r matches Ok(p) ==> ({
                &&& p.server_name@ == spec_props_name(config@)
                &&& p.level_name@ == spec_props_level(config@)
                &&& Ok::<Gamemode, ConfigError>(p.gamemode) == spec_gamemode_of(
                    spec_props_gamemode(config@),
                )
                &&& Some(p.max_players as nat) == spec_parse_uint(
                    spec_props_max_players(config@),
                )
                &&& Some(p.port4 as nat) == spec_parse_uint(spec_props_port4(config@))
                &&& Some(p.port6 as nat) == spec_parse_uint(spec_props_port6(config@))
            }),
    {
        let cs = char_vec(config);
        let lines = split_lines(&cs);
        let name = value_or(&lines, "server-name", "Minecraft Server");
        let level = value_or(&lines, "level-name", "Bedrock server");
        let gm_text = value_or(&lines, "gamemode", "");
        let maxp_text = value_or(&lines, "max-players", "1");
        let p4_text = value_or(&lines, "server-port", "");
        let p6_text = value_or(&lines, "server-portv6", "");
        proof {
            reveal_strlit("");
            assert(""@ =~= Seq::<char>::empty());
        }
        if has_semi(&name) {
            return Err(ConfigError::SemicolonInServerName);
        }
        if has_semi(&level) {
            return Err(ConfigError::SemicolonInLevelName);
        }
        let gamemode = match gamemode_of_chars(&gm_text) {
            Ok(g) => g,
            Err(_) => {
                return Err(ConfigError::BadGamemode);
            },
        };
        let max_players = match parse_uint_bounded(&maxp_text, usize::MAX as u64) {
            Some(n) => n as usize,
            None => {
                return Err(ConfigError::BadMaxPlayers);
            },
        };
        let port4 = match parse_uint_bounded(&p4_text, 0xFFFF) {
            Some(n) => n as u16,
            None => {
                return Err(ConfigError::BadPortV4);
            },
        };
        let port6 = match parse_uint_bounded(&p6_text, 0xFFFF) {
            Some(n) => n as u16,
            None => {
                return Err(ConfigError::BadPortV6);
            },
        };
        Ok(
            ServerProperties {
                server_name: string_from_chars(&name),
                level_name: string_from_chars(&level),
                gamemode,
                max_players,
                port4,
                port6,
            },
        )
    }
}

} // verus!
