//! Command-line argument handling for the launcher: tokenizing a
//! free-form custom-argument string, extracting a `--port` override
//! from it, building the full server argument vector, and deriving a
//! model's display name from its path.

use vstd::prelude::*;

use crate::text::{dec_rep, parse_u16, parse_u16_spec, push_char, u64_to_string};

verus! {

/// Whether a character opens or closes a quoted span.
pub open spec fn is_quote(c: char) -> bool {
    c == '"' || c == '\''
}

/// The tokens of the suffix of `s` from position `i`, given the
/// tokenizer state so far: whether a quoted span is open, the token
/// being accumulated, and the tokens already emitted.
///
/// A quote character toggles the quoted state and is never part of a
/// token; a space outside quotes ends the accumulated token (if any);
/// every other character joins the accumulated token. A trailing
/// partial token is still emitted.
pub open spec fn tokens_from(
    s: Seq<char>,
    i: int,
    in_quotes: bool,
    cur: Seq<char>,
    done: Seq<Seq<char>>,
) -> Seq<Seq<char>>
    decreases s.len() - i,
{
    if i < 0 || i >= s.len() {
        if cur.len() == 0 {
            done
        } else {
            done.push(cur)
        }
    } else if is_quote(s[i]) {
        tokens_from(s, i + 1, !in_quotes, cur, done)
    } else if s[i] == ' ' && !in_quotes {
        if cur.len() == 0 {
            tokens_from(s, i + 1, in_quotes, cur, done)
        } else {
            tokens_from(s, i + 1, in_quotes, Seq::empty(), done.push(cur))
        }
    } else {
        tokens_from(s, i + 1, in_quotes, cur.push(s[i]), done)
    }
}

/// The tokens of a custom-argument string.
pub open spec fn tokenize(s: Seq<char>) -> Seq<Seq<char>> {
    tokens_from(s, 0, false, Seq::empty(), Seq::empty())
}

/// Splits a custom-argument string into tokens: space-separated, with
/// single- or double-quoted substrings kept as one token and the quote
/// characters themselves dropped. Unbalanced quotes are tolerated: the
/// trailing partial token is still emitted.
pub fn parse_custom_args(custom_args: &str) -> (args: Vec<String>)
    ensures
        args.deep_view() == tokenize(custom_args@),
{
    let ghost s: Seq<char> = custom_args@;
    let n = custom_args.unicode_len();
    let mut args: Vec<String> = Vec::new();
    let mut current: String = String::new();
    let mut in_quotes: bool = false;
    let mut i: usize = 0;
    proof {
        assert(args.deep_view() =~= Seq::<Seq<char>>::empty());
    }
    while i < n
        invariant
            i <= n,
            n == s.len(),
            s == custom_args@,
            tokens_from(s, i as int, in_quotes, current@, args.deep_view()) == tokenize(s),
        decreases n - i,
    {
        let ghost done_pre = args.deep_view();
        let c = custom_args.get_char(i);
        if c == '"' || c == '\'' {
            in_quotes = !in_quotes;
        } else if c == ' ' && !in_quotes {
            if !current.as_str().is_empty() {
                let ghost cur_pre = current@;
                args.push(current);
                current = String::new();
                proof {
                    assert(args.deep_view() =~= done_pre.push(cur_pre));
                }
            }
        } else {
            push_char(&mut current, c);
        }
        i += 1;
    }
    if !current.as_str().is_empty() {
        let ghost done_pre = args.deep_view();
        let ghost cur_pre = current@;
        args.push(current);
        proof {
            assert(args.deep_view() =~= done_pre.push(cur_pre));
        }
    }
    args
}

/// Whether the pattern occurs in `s` starting at position `i`.
pub open spec fn matches_at(s: Seq<char>, pat: Seq<char>, i: int) -> bool {
    0 <= i && i + pat.len() <= s.len() && s.subrange(i, i + pat.len()) == pat
}

/// The position of the first occurrence of the pattern at or after
/// position `i`, if any.
pub open spec fn find_from(s: Seq<char>, pat: Seq<char>, i: int) -> Option<int>
    decreases s.len() - i,
{
    if i < 0 || pat.len() == 0 || i + pat.len() > s.len() {
        None
    } else if matches_at(s, pat, i) {
        Some(i)
    } else {
        find_from(s, pat, i + 1)
    }
}

/// The characters of the `--port` flag.
pub open spec fn port_token() -> Seq<char> {
    seq!['-', '-', 'p', 'o', 'r', 't']
}

/// The position of the first space at or after position `i`, or the
/// length of `s` if there is none.
pub open spec fn next_space(s: Seq<char>, i: int) -> int
    decreases s.len() - i,
{
    if i < 0 || i >= s.len() {
        s.len() as int
    } else if s[i] == ' ' {
        i
    } else {
        next_space(s, i + 1)
    }
}

/// The position of the first character at or after position `i` that is
/// not a space, or the length of `s` if there is none.
pub open spec fn skip_spaces(s: Seq<char>, i: int) -> int
    decreases s.len() - i,
{
    if i < 0 || i >= s.len() {
        s.len() as int
    } else if s[i] == ' ' {
        skip_spaces(s, i + 1)
    } else {
        i
    }
}

/// The characters of the value following a `--port` flag whose last
/// character sits at position `p - 1`: the rest of a `--port=VALUE`
/// token, or the next space-delimited word of a `--port VALUE` pair.
pub open spec fn port_value_chars(s: Seq<char>, p: int) -> Seq<char> {
    if 0 <= p < s.len() && s[p] == '=' {
        s.subrange(p + 1, next_space(s, p + 1))
    } else {
        s.subrange(skip_spaces(s, p), next_space(s, skip_spaces(s, p)))
    }
}

/// The port carried by a `--port` override in a custom-argument string,
/// if the string has one with a value that parses as a sixteen-bit
/// unsigned integer.
pub open spec fn port_override(s: Seq<char>) -> Option<u16> {
    match find_from(s, port_token(), 0) {
        Some(pos) => parse_u16_spec(port_value_chars(s, pos + 6)),
        None => None,
    }
}

/// The port a launch should request: the `--port` override from the
/// custom arguments when present and parseable, the configured default
/// otherwise.
pub open spec fn effective_port(s: Seq<char>, default_port: u16) -> u16 {
    match port_override(s) {
        Some(p) => p,
        None => default_port,
    }
}

/// Finds the first occurrence of `--port` in the string.
fn find_port_token(s: &str) -> (r: Option<usize>)
    ensures
        match r {
            Some(i) => find_from(s@, port_token(), 0) == Some(i as int) && i + 6 <= s@.len(),
            None => find_from(s@, port_token(), 0) is None,
        },
{
    let n = s.unicode_len();
    if n < 6 {
        proof {
            lemma_find_none_short(s@, 0);
        }
        return None;
    }
    let mut i: usize = 0;
    while i <= n - 6
        invariant
            i <= n,
            n == s@.len(),
            n >= 6,
            find_from(s@, port_token(), 0) == find_from(s@, port_token(), i as int),
        decreases n - i,
    {
        let c0 = s.get_char(i);
        let c1 = s.get_char(i + 1);
        let c2 = s.get_char(i + 2);
        let c3 = s.get_char(i + 3);
        let c4 = s.get_char(i + 4);
        let c5 = s.get_char(i + 5);
        if c0 == '-' && c1 == '-' && c2 == 'p' && c3 == 'o' && c4 == 'r' && c5 == 't' {
            proof {
                assert(s@.subrange(i as int, i + 6) =~= port_token());
            }
            return Some(i);
        }
        proof {
            if matches_at(s@, port_token(), i as int) {
                let sub = s@.subrange(i as int, i + 6);
                assert(sub[0] == s@[i as int] && sub[1] == s@[i + 1] && sub[2] == s@[i + 2]
                    && sub[3] == s@[i + 3] && sub[4] == s@[i + 4] && sub[5] == s@[i + 5]);
                assert(false);
            }
        }
        i += 1;
    }
    proof {
        lemma_find_none_short(s@, i as int);
    }
    None
}

/// A search window too short for the pattern holds no occurrence.
proof fn lemma_find_none_short(s: Seq<char>, i: int)
    requires
        i + 6 > s.len(),
    ensures
        find_from(s, port_token(), i) is None,
{
}

/// Copies a range of the string's characters out as a vector.
fn collect_range(s: &str, from: usize, to: usize) -> (v: Vec<char>)
    requires
        from <= to <= s@.len(),
    ensures
        v@ == s@.subrange(from as int, to as int),
{
    let mut v: Vec<char> = Vec::new();
    let mut k = from;
    while k < to
        invariant
            from <= k <= to <= s@.len(),
            v@ =~= s@.subrange(from as int, k as int),
        decreases to - k,
    {
        let c = s.get_char(k);
        v.push(c);
        proof {
            assert(v@ =~= s@.subrange(from as int, k + 1));
        }
        k += 1;
    }
    proof {
        assert(v@ =~= s@.subrange(from as int, to as int));
    }
    v
}

/// Finds the first space at or after `from`.
fn find_next_space(s: &str, from: usize) -> (r: usize)
    requires
        from <= s@.len(),
    ensures
        r == next_space(s@, from as int),
        from <= r <= s@.len(),
{
    let n = s.unicode_len();
    let mut k = from;
    while k < n
        invariant
            from <= k <= n,
            n == s@.len(),
            next_space(s@, from as int) == next_space(s@, k as int),
        decreases n - k,
    {
        let c = s.get_char(k);
        if c == ' ' {
            return k;
        }
        k += 1;
    }
    n
}

/// Finds the first non-space at or after `from`.
fn find_skip_spaces(s: &str, from: usize) -> (r: usize)
    requires
        from <= s@.len(),
    ensures
        r == skip_spaces(s@, from as int),
        from <= r <= s@.len(),
{
    let n = s.unicode_len();
    let mut k = from;
    while k < n
        invariant
            from <= k <= n,
            n == s@.len(),
            skip_spaces(s@, from as int) == skip_spaces(s@, k as int),
        decreases n - k,
    {
        let c = s.get_char(k);
        if c != ' ' {
            return k;
        }
        k += 1;
    }
    n
}

/// The port to request for a launch: scans the custom arguments for a
/// `--port` override in `--port=VALUE` or `--port VALUE` form and
/// returns its value when it parses as a sixteen-bit unsigned integer;
/// otherwise returns the configured default port.
pub fn parse_port_from_args(custom_args: &str, default_port: u16) -> (port: u16)
    ensures
        port == effective_port(custom_args@, default_port),
{
    let n = custom_args.unicode_len();
    let pos = match find_port_token(custom_args) {
        Some(pos) => pos,
        None => {
            return default_port;
        },
    };
    let p = pos + 6;
    let value_chars: Vec<char> = if p < n && custom_args.get_char(p) == '=' {
        let end = find_next_space(custom_args, p + 1);
        collect_range(custom_args, p + 1, end)
    } else {
        let start = find_skip_spaces(custom_args, p);
        let end = find_next_space(custom_args, start);
        collect_range(custom_args, start, end)
    };
    proof {
        assert(value_chars@ == port_value_chars(custom_args@, pos + 6));
    }
    match parse_u16(&value_chars) {
        Some(port) => port,
        None => default_port,
    }
}

/// The argument vector a launch spawns the server with: the model path,
/// bind host and bind port, followed by the tokens of the custom
/// arguments.
pub open spec fn server_args(
    model_path: Seq<char>,
    host: Seq<char>,
    port: u16,
    custom: Seq<char>,
) -> Seq<Seq<char>> {
    seq!["-m"@, model_path, "--host"@, host, "--port"@, dec_rep(port as nat)] + tokenize(custom)
}

/// Builds the argument vector for spawning the server: `-m <model>`,
/// `--host <host>`, `--port <port>`, then the tokenized custom
/// arguments.
pub fn build_server_args(model_path: &str, host: &str, port: u16, custom_args: &str) -> (args: Vec<
    String,
>)
    ensures
        args.deep_view() == server_args(model_path@, host@, port, custom_args@),
{
    let mut args: Vec<String> = Vec::new();
    args.push("-m".to_owned());
    args.push(model_path.to_owned());
    args.push("--host".to_owned());
    args.push(host.to_owned());
    args.push("--port".to_owned());
    args.push(u64_to_string(port as u64));
    let mut custom = parse_custom_args(custom_args);
    let ghost base = args.deep_view();
    let ghost extra = custom.deep_view();
    args.append(&mut custom);
    proof {
        assert(args.deep_view() =~= base + extra);
        assert(base =~= seq![
            "-m"@,
            model_path@,
            "--host"@,
            host@,
            "--port"@,
            dec_rep(port as nat),
        ]);
    }
    args
}


/// The file-name part of a path: the characters after the last slash.
pub open spec fn after_last_slash(s: Seq<char>) -> Seq<char>
    decreases s.len(),
{
    if s.len() == 0 {
        s
    } else if s.last() == '/' {
        Seq::empty()
    } else {
        after_last_slash(s.drop_last()).push(s.last())
    }
}

/// The position of the last dot in a file name, provided it is not the
/// leading character, or `-1` if there is no such dot.
pub open spec fn last_dot(name: Seq<char>) -> int
    decreases name.len(),
{
    if name.len() <= 1 {
        -1
    } else if name.last() == '.' {
        name.len() - 1
    } else {
        last_dot(name.drop_last())
    }
}

/// A file name without its extension: the characters before the last
/// dot, or the whole name when it has no dot past its first character.
pub open spec fn stem_of(name: Seq<char>) -> Seq<char> {
    if last_dot(name) > 0 {
        name.subrange(0, last_dot(name))
    } else {
        name
    }
}

/// A model's display name: the stem of the file name of its path, or
/// `unknown` when the path yields an empty stem.
pub open spec fn display_name(path: Seq<char>) -> Seq<char> {
    if stem_of(after_last_slash(path)).len() == 0 {
        "unknown"@
    } else {
        stem_of(after_last_slash(path))
    }
}

/// Derives the display name of a model from its path: the file name
/// with its extension dropped, or `unknown` when nothing is left.
pub fn model_display_name(path: &str) -> (name: String)
    ensures
        name@ == display_name(path@),
{
    let ghost s: Seq<char> = path@;
    let n = path.unicode_len();
    // Position right after the last slash.
    let mut start: usize = 0;
    let mut i: usize = 0;
    proof {
        assert(s.subrange(0, 0) =~= Seq::<char>::empty());
        assert(after_last_slash(s.subrange(0, 0)) =~= s.subrange(0, 0));
    }
    while i < n
        invariant
            start <= i <= n,
            n == s.len(),
            s == path@,
            after_last_slash(s.subrange(0, i as int)) =~= s.subrange(start as int, i as int),
        decreases n - i,
    {
        let c = path.get_char(i);
        proof {
            assert(s.subrange(0, i + 1).drop_last() =~= s.subrange(0, i as int));
            assert(s.subrange(0, i + 1).last() == s[i as int]);
        }
        if c == '/' {
            start = i + 1;
            proof {
                assert(s.subrange(start as int, i + 1) =~= Seq::<char>::empty());
            }
        } else {
            proof {
                assert(after_last_slash(s.subrange(0, i as int)).push(s[i as int]) =~= s.subrange(
                    start as int,
                    i + 1,
                ));
            }
        }
        i += 1;
    }
    let ghost name_seq: Seq<char> = after_last_slash(s);
    proof {
        assert(s.subrange(0, n as int) =~= s);
        assert(name_seq =~= s.subrange(start as int, n as int));
    }
    // Position of the last dot past the file name's first character.
    let mut dot: usize = 0;
    let mut has_dot: bool = false;
    let mut j: usize = start;
    proof {
        if start < n {
            assert(s.subrange(start as int, start + 1 as int).len() <= 1);
        }
        assert(last_dot(s.subrange(start as int, start as int)) == -1);
    }
    while j < n
        invariant
            start <= j <= n,
            n == s.len(),
            s == path@,
            name_seq =~= s.subrange(start as int, n as int),
            has_dot ==> start < dot < j && last_dot(s.subrange(start as int, j as int)) == dot
                - start,
            !has_dot ==> last_dot(s.subrange(start as int, j as int)) == -1,
        decreases n - j,
    {
        let c = path.get_char(j);
        proof {
            assert(s.subrange(start as int, j + 1).drop_last() =~= s.subrange(
                start as int,
                j as int,
            ));
            assert(s.subrange(start as int, j + 1).last() == s[j as int]);
        }
        if c == '.' && j > start {
            dot = j;
            has_dot = true;
        }
        j += 1;
    }
    let end: usize = if has_dot {
        dot
    } else {
        n
    };
    let ghost stem = stem_of(name_seq);
    proof {
        if has_dot {
            assert(stem =~= s.subrange(start as int, end as int));
        } else {
            assert(stem =~= s.subrange(start as int, end as int));
        }
    }
    if start == end {
        let unknown = "unknown".to_owned();
        return unknown;
    }
    let mut name = String::new();
    let mut k: usize = start;
    while k < end
        invariant
            start <= k <= end <= n,
            n == s.len(),
            s == path@,
            name@ =~= s.subrange(start as int, k as int),
        decreases end - k,
    {
        let c = path.get_char(k);
        push_char(&mut name, c);
        proof {
            assert(name@ =~= s.subrange(start as int, k + 1));
        }
        k += 1;
    }
    proof {
        assert(name@ =~= stem);
    }
    name
}

} // verus!
