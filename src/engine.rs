//! The engine and the decisions of its text protocol (UCI).
//!
//! The protocol reads commands line by line. This module turns each line
//! into a [`Command`]; the program that drives the engine performs it.

use vstd::prelude::*;
use vstd::string::*;

use crate::text::matches_word;

verus! {

/// The words of `s`, split at whitespace.
pub uninterp spec fn words_of(s: Seq<char>) -> Seq<Seq<char>>;

/// `l` without one `\r` at its end, if it has one.
pub open spec fn strip_cr(l: Seq<char>) -> Seq<char> {
    if l.len() > 0 && l.last() == '\r' {
        l.drop_last()
    } else {
        l
    }
}

/// The lines of `s` from index `i` on, after the lines `acc` and the start
/// `cur` of the current line: each `\n` ends a line, without a `\r` just
/// before it; a last line that no `\n` ends counts only if it is not empty.
pub open spec fn lines_from(s: Seq<char>, i: int, cur: Seq<char>, acc: Seq<Seq<char>>) -> Seq<
    Seq<char>,
>
    decreases s.len() - i,
{
    if i >= s.len() {
        if cur.len() == 0 {
            acc
        } else {
            acc.push(cur)
        }
    } else if s[i] == '\n' {
        lines_from(s, i + 1, seq![], acc.push(strip_cr(cur)))
    } else {
        lines_from(s, i + 1, cur.push(s[i]), acc)
    }
}

/// The lines of `s`, split at line ends (`\n` or `\r\n`); a text that ends
/// with a line end has no empty line after it.
pub open spec fn lines_of(s: Seq<char>) -> Seq<Seq<char>> {
    lines_from(s, 0, seq![], seq![])
}

/// The texts of a list of strings.
pub open spec fn texts(v: Seq<String>) -> Seq<Seq<char>> {
    v.map_values(|w: String| w@)
}

/// Relies on `str::split_whitespace`: the words of a line depend on its characters alone.
#[verifier::external_body]
fn split_words(s: &str) -> (r: Vec<String>)
    ensures
        texts(r@) == words_of(s@),
{
    let mut v = Vec::new();
    for w in s.split_whitespace() {
        v.push(w.to_string());
    }
    v
}

/// Returns the lines of `s`, split at line ends (`\n` or `\r\n`).
fn split_lines(s: &str) -> (r: Vec<String>)
    ensures
        texts(r@) == lines_of(s@),
{
    let n = s.unicode_len();
    let mut out: Vec<String> = Vec::new();
    let mut start: usize = 0;
    let mut i: usize = 0;
    assert(s@.subrange(0, 0) =~= Seq::<char>::empty());
    assert(texts(out@) =~= Seq::<Seq<char>>::empty());
    while i < n
        invariant
            n == s@.len(),
            start <= i <= n,
            lines_of(s@) == lines_from(s@, i as int, s@.subrange(start as int, i as int), texts(out@)),
        decreases n - i,
    {
        let ghost cur = s@.subrange(start as int, i as int);
        assert(s@.subrange(start as int, i + 1) =~= cur.push(s@[i as int]));
        if s.get_char(i) == '\n' {
            let end = if i > start && s.get_char(i - 1) == '\r' {
                i - 1
            } else {
                i
            };
            let line = s.substring_char(start, end);
            assert(line@ =~= strip_cr(cur));
            let ghost before = out@;
            out.push(String::from_str(line));
            assert(texts(out@) =~= texts(before).push(line@));
            assert(s@.subrange(i + 1, i + 1) =~= Seq::<char>::empty());
            start = i + 1;
        }
        i = i + 1;
    }
    if start < n {
        let line = s.substring_char(start, n);
        let ghost before = out@;
        out.push(String::from_str(line));
        assert(texts(out@) =~= texts(before).push(line@));
    }
    out
}

/// The value of a decimal digit.
pub open spec fn digit(c: char) -> int {
    c as int - '0' as int
}

/// The number that the decimal digits of `s` spell, if `s` is a non-empty
/// run of digits.
pub open spec fn decimal(s: Seq<char>) -> Option<nat>
    decreases s.len(),
{
    if s.len() == 0 || !('0' <= s.last() <= '9') {
        None
    } else if s.len() == 1 {
        Some(digit(s.last()) as nat)
    } else {
        match decimal(s.drop_last()) {
            Some(v) => Some((v * 10 + digit(s.last())) as nat),
            None => None,
        }
    }
}

/// The number that `s` spells, if it is a run of decimal digits whose value fits in 64 bits.
pub open spec fn digits_value(s: Seq<char>) -> Option<u64> {
    match decimal(s) {
        Some(v) => if v <= u64::MAX {
            Some(v as u64)
        } else {
            None
        },
        None => None,
    }
}

/// The number that `s` spells: one optional `+`, then a run of decimal
/// digits whose value fits in 64 bits.
pub open spec fn number(s: Seq<char>) -> Option<u64> {
    if s.len() > 0 && s[0] == '+' {
        digits_value(s.drop_first())
    } else {
        digits_value(s)
    }
}

proof fn lemma_decimal_fail(s: Seq<char>, i: int, m: int)
    requires
        0 <= i < m <= s.len(),
        !('0' <= s[i] <= '9'),
    ensures
        decimal(s.take(m)).is_none(),
    decreases m,
{
    assert(s.take(m).drop_last() =~= s.take(m - 1));
    if m - 1 > i {
        lemma_decimal_fail(s, i, m - 1);
    }
}

proof fn lemma_decimal_grows(s: Seq<char>, i: int)
    requires
        1 <= i <= s.len(),
        decimal(s.take(i)).is_some(),
    ensures
        forall|m: int|
            i <= m <= s.len() && #[trigger] decimal(s.take(m)).is_some() ==> decimal(
                s.take(m),
            ).unwrap() >= decimal(s.take(i)).unwrap(),
    decreases s.len() - i,
{
    assert forall|m: int|
        i <= m <= s.len() && #[trigger] decimal(s.take(m)).is_some() implies decimal(
        s.take(m),
    ).unwrap() >= decimal(s.take(i)).unwrap() by {
        lemma_decimal_grows_to(s, i, m);
    }
}

proof fn lemma_decimal_grows_to(s: Seq<char>, i: int, m: int)
    requires
        1 <= i <= m <= s.len(),
        decimal(s.take(i)).is_some(),
        decimal(s.take(m)).is_some(),
    ensures
        decimal(s.take(m)).unwrap() >= decimal(s.take(i)).unwrap(),
    decreases m,
{
    if m > i {
        assert(s.take(m).drop_last() =~= s.take(m - 1));
        lemma_decimal_grows_to(s, i, m - 1);
    }
}

/// Returns the number that `s` spells: one optional `+`, then decimal
/// digits; `None` if there is no digit, another character, or a value too
/// large for 64 bits.
pub fn parse_number(s: &str) -> (r: Option<u64>)
    ensures
        r == number(s@),
{
    let n = s.unicode_len();
    if n > 0 && s.get_char(0) == '+' {
        let digits = s.substring_char(1, n);
        assert(digits@ =~= s@.drop_first());
        parse_digits(digits)
    } else {
        parse_digits(s)
    }
}

/// Returns the value of the decimal digits `s`, or `None` if `s` is empty,
/// holds another character, or is too large for 64 bits.
fn parse_digits(s: &str) -> (r: Option<u64>)
    ensures
        r == digits_value(s@),
{
    let n = s.unicode_len();
    if n == 0 {
        return None;
    }
    let mut v: u64 = 0;
    let mut i: usize = 0;
    while i < n
        invariant
            n == s@.len(),
            1 <= n,
            i <= n,
            forall|j: int| 0 <= j < i ==> '0' <= #[trigger] s@[j] <= '9',
            i == 0 ==> v == 0,
            i > 0 ==> decimal(s@.take(i as int)) == Some(v as nat),
        decreases n - i,
    {
        let c = s.get_char(i);
        assert(s@.take(i + 1).drop_last() =~= s@.take(i as int));
        if !('0' <= c && c <= '9') {
            proof {
                lemma_decimal_fail(s@, i as int, n as int);
                assert(s@.take(n as int) =~= s@);
            }
            return None;
        }
        let d = (c as u32 - '0' as u32) as u64;
        if v > (u64::MAX - d) / 10 {
            proof {
                assert(v * 10 + d > u64::MAX) by (nonlinear_arith)
                    requires
                        v > (u64::MAX - d) / 10,
                        d <= 9,
                ;
                assert(decimal(s@.take(i + 1)) == Some((v * 10 + d) as nat));
                assert(s@.take(n as int) =~= s@);
                lemma_decimal_grows(s@, (i + 1) as int);
            }
            return None;
        }
        proof {
            assert(v * 10 + d <= u64::MAX) by (nonlinear_arith)
                requires
                    v <= (u64::MAX - d) / 10,
                    d <= 9,
            ;
        }
        v = v * 10 + d;
        i = i + 1;
    }
    assert(s@.take(n as int) =~= s@);
    Some(v)
}

/// The limits of a search that a `go` command sets.
#[derive(Copy, Clone, Debug, PartialEq, Eq, Structural)]
pub struct Limits {
    /// Search in ponder mode.
    pub ponder: bool,
    /// Search until told to stop.
    pub infinite: bool,
    /// White's time left, in milliseconds.
    pub white_time: u64,
    /// Black's time left, in milliseconds.
    pub black_time: u64,
    /// White's increment per move, in milliseconds.
    pub white_inc: u64,
    /// Black's increment per move, in milliseconds.
    pub black_inc: u64,
    /// Moves until the next time control.
    pub moves_to_go: u64,
    /// The depth to search to, in plies.
    pub depth: u64,
    /// The number of nodes to search.
    pub nodes: u64,
    /// Search for a mate in this many moves.
    pub mate: u64,
    /// The time to search for, in milliseconds.
    pub move_time: u64,
}

impl Limits {
    /// The limits of a search with none set.
    pub open spec fn none() -> Limits {
        Limits {
            ponder: false,
            infinite: false,
            white_time: 0,
            black_time: 0,
            white_inc: 0,
            black_inc: 0,
            moves_to_go: 0,
            depth: 0,
            nodes: 0,
            mate: 0,
            move_time: 0,
        }
    }

    /// `self` with the limit named `key` set to `v`; unchanged for any other word.
    pub open spec fn with(self, key: Seq<char>, v: u64) -> Limits {
        if key == "wtime"@ {
            Limits { white_time: v, ..self }
        } else if key == "btime"@ {
            Limits { black_time: v, ..self }
        } else if key == "winc"@ {
            Limits { white_inc: v, ..self }
        } else if key == "binc"@ {
            Limits { black_inc: v, ..self }
        } else if key == "movestogo"@ {
            Limits { moves_to_go: v, ..self }
        } else if key == "depth"@ {
            Limits { depth: v, ..self }
        } else if key == "nodes"@ {
            Limits { nodes: v, ..self }
        } else if key == "mate"@ {
            Limits { mate: v, ..self }
        } else {
            Limits { move_time: v, ..self }
        }
    }
}

impl Default for Limits {
    fn default() -> (r: Limits)
        ensures
            r == Limits::none(),
    {
        Limits {
            ponder: false,
            infinite: false,
            white_time: 0,
            black_time: 0,
            white_inc: 0,
            black_inc: 0,
            moves_to_go: 0,
            depth: 0,
            nodes: 0,
            mate: 0,
            move_time: 0,
        }
    }
}

/// Whether `w` names a limit that takes a number.
pub open spec fn is_number_key(w: Seq<char>) -> bool {
    w == "wtime"@ || w == "btime"@ || w == "winc"@ || w == "binc"@ || w == "movestogo"@ || w
        == "depth"@ || w == "nodes"@ || w == "mate"@ || w == "movetime"@
}

/// The limits and the moves to search that the words `ws` of a `go`
/// command give, read from the front, starting from `l`: `ponder` and
/// `infinite` set their flags; a limit name takes the next word as its
/// value, which is kept if it is a number; `searchmoves` takes all the
/// words after it as moves; any other word is skipped.
pub open spec fn go_words(ws: Seq<Seq<char>>, l: Limits) -> (Limits, Seq<Seq<char>>)
    decreases ws.len(),
{
    if ws.len() == 0 {
        (l, seq![])
    } else {
        let w = ws[0];
        let rest = ws.drop_first();
        if w == "searchmoves"@ {
            (l, rest)
        } else if w == "ponder"@ {
            go_words(rest, Limits { ponder: true, ..l })
        } else if w == "infinite"@ {
            go_words(rest, Limits { infinite: true, ..l })
        } else if is_number_key(w) {
            if rest.len() == 0 {
                (l, seq![])
            } else {
                let l2 = match number(rest[0]) {
                    Some(v) => l.with(w, v),
                    None => l,
                };
                go_words(rest.drop_first(), l2)
            }
        } else {
            go_words(rest, l)
        }
    }
}

/// What a `setoption` command asks.
#[derive(Copy, Clone, Debug, PartialEq, Eq, Structural)]
pub enum OptionRequest {
    /// Set the number of search threads.
    Threads,
    /// Resize the hash table to this many megabytes; `None` if the value is not a number.
    Hash(Option<u64>),
    /// An option the engine does not have.
    Unknown,
}

/// A command of the protocol.
#[derive(Debug)]
pub enum Command {
    /// Leave the protocol loop.
    Quit,
    /// Identify the engine and list its options.
    Uci,
    /// Stop searching.
    Stop,
    /// The opponent played the move the engine pondered on.
    PonderHit,
    /// Set up a position.
    Position,
    /// Set an option: its name, its value and the request they make.
    SetOption(String, String, OptionRequest),
    /// Start a new game.
    NewGame,
    /// Start searching within the limits, among the moves given (all moves if none).
    Go(Limits, Vec<String>),
    /// Ask whether the engine is ready.
    IsReady,
    /// A line that is no command.
    Unknown,
}

/// `acc` with the word `w` added, after a space unless `acc` is empty.
pub open spec fn add_word(acc: Seq<char>, w: Seq<char>) -> Seq<char> {
    if acc.len() == 0 {
        w
    } else {
        acc + seq![' '] + w
    }
}

/// The option name of a `setoption` command: the words of `ws` from `i`
/// on up to the first `value`, added to `acc` with spaces between; and the
/// index of the word after that `value` (the end if there is none).
pub open spec fn name_words(ws: Seq<Seq<char>>, i: int, acc: Seq<char>) -> (Seq<char>, int)
    decreases ws.len() - i,
{
    if i >= ws.len() {
        (acc, ws.len() as int)
    } else if ws[i] == "value"@ {
        (acc, i + 1)
    } else {
        name_words(ws, i + 1, add_word(acc, ws[i]))
    }
}

/// The words of `ws` from `i` on, added to `acc` with spaces between.
pub open spec fn joined(ws: Seq<Seq<char>>, i: int, acc: Seq<char>) -> Seq<char>
    decreases ws.len() - i,
{
    if i >= ws.len() {
        acc
    } else {
        joined(ws, i + 1, add_word(acc, ws[i]))
    }
}

/// The request of a `setoption` command whose option is `name` and value is `value`.
pub open spec fn option_request(name: Seq<char>, value: Seq<char>) -> OptionRequest {
    if matches_word(name, "threads"@) {
        OptionRequest::Threads
    } else if matches_word(name, "hash"@) {
        OptionRequest::Hash(number(value))
    } else {
        OptionRequest::Unknown
    }
}

/// Returns whether `a` and `b` hold the same text.
fn same_text(a: &str, b: &str) -> (r: bool)
    ensures
        r == (a@ == b@),
{
    let n = a.unicode_len();
    if n != b.unicode_len() {
        return false;
    }
    let mut i: usize = 0;
    while i < n
        invariant
            n == a@.len(),
            n == b@.len(),
            i <= n,
            forall|j: int| 0 <= j < i ==> #[trigger] a@[j] == b@[j],
        decreases n - i,
    {
        if a.get_char(i) != b.get_char(i) {
            return false;
        }
        i = i + 1;
    }
    assert(a@ =~= b@);
    true
}

/// Returns `acc` with the word `w` added, after a space unless `acc` is empty.
fn push_word(acc: &mut String, w: &str)
    ensures
        final(acc)@ == add_word(old(acc)@, w@),
{
    proof {
        reveal_strlit(" ");
    }
    if acc.unicode_len() != 0 {
        acc.append(" ");
    }
    acc.append(w);
}

/// Returns the limits and the moves to search that the words of a `go`
/// command give, from index `start` on.
pub fn go_limits(words: &Vec<String>, start: usize) -> (r: (Limits, Vec<String>))
    requires
        start <= words@.len(),
    ensures
        (r.0, texts(r.1@)) == go_words(texts(words@).skip(start as int), Limits::none()),
{
    let ghost ws = texts(words@);
    let mut l = Limits::default();
    let mut i = start;
    let n = words.len();
    while i < n
        invariant
            n == words@.len(),
            ws == texts(words@),
            start <= i <= n,
            go_words(ws.skip(start as int), Limits::none()) == go_words(ws.skip(i as int), l),
        decreases n - i,
    {
        let ghost rest = ws.skip(i as int);
        assert(rest[0] == words@[i as int]@);
        assert(rest.drop_first() =~= ws.skip(i + 1));
        let w = words[i].as_str();
        if same_text(w, "searchmoves") {
            let mut moves: Vec<String> = Vec::new();
            let mut j = i + 1;
            while j < n
                invariant
                    n == words@.len(),
                    ws == texts(words@),
                    i < j <= n,
                    texts(moves@) =~= ws.subrange(i + 1, j as int),
                decreases n - j,
            {
                let w = words[j].clone();
                let ghost before = moves@;
                moves.push(w);
                assert(moves@ == before.push(w));
                assert(texts(moves@) =~= texts(before).push(w@));
                assert(ws[j as int] == words@[j as int]@);
                j = j + 1;
            }
            assert(texts(moves@) =~= ws.skip(i + 1));
            return (l, moves);
        } else if same_text(w, "ponder") {
            l.ponder = true;
        } else if same_text(w, "infinite") {
            l.infinite = true;
        } else if same_text(w, "wtime") || same_text(w, "btime") || same_text(w, "winc")
            || same_text(w, "binc") || same_text(w, "movestogo") || same_text(w, "depth")
            || same_text(w, "nodes") || same_text(w, "mate") || same_text(w, "movetime") {
            if i + 1 >= n {
                assert(ws.skip(i + 1) =~= Seq::<Seq<char>>::empty());
                return (l, Vec::new());
            }
            assert(ws.skip(i + 1)[0] == words@[i + 1]@);
            assert(ws.skip(i + 1).drop_first() =~= ws.skip(i + 2));
            match parse_number(words[i + 1].as_str()) {
                Some(v) => {
                    if same_text(w, "wtime") {
                        l.white_time = v;
                    } else if same_text(w, "btime") {
                        l.black_time = v;
                    } else if same_text(w, "winc") {
                        l.white_inc = v;
                    } else if same_text(w, "binc") {
                        l.black_inc = v;
                    } else if same_text(w, "movestogo") {
                        l.moves_to_go = v;
                    } else if same_text(w, "depth") {
                        l.depth = v;
                    } else if same_text(w, "nodes") {
                        l.nodes = v;
                    } else if same_text(w, "mate") {
                        l.mate = v;
                    } else {
                        l.move_time = v;
                    }
                },
                None => {},
            }
            i = i + 1;
        }
        i = i + 1;
    }
    assert(ws.skip(i as int) =~= Seq::<Seq<char>>::empty());
    (l, Vec::new())
}

/// Returns the option name and the value of a `setoption` command from the
/// words of its line: the command word and the next (`name`) are skipped,
/// the name runs up to the word `value`, and the value is the rest.
pub fn option_words(words: &Vec<String>) -> (r: (String, String))
    ensures
        r.0@ == name_words(texts(words@), 2, seq![]).0,
        r.1@ == joined(texts(words@), name_words(texts(words@), 2, seq![]).1, seq![]),
{
    let ghost ws = texts(words@);
    let n = words.len();
    let mut name = String::new();
    let mut i: usize = 2;
    let mut stop = false;
    while i < n && !stop
        invariant
            n == words@.len(),
            ws == texts(words@),
            2 <= i,
            stop ==> i < n && ws[i as int] == "value"@,
            name_words(ws, 2, seq![]) == name_words(ws, i as int, name@),
        decreases n - i + if stop {
            0int
        } else {
            1int
        },
    {
        assert(ws[i as int] == words@[i as int]@);
        if same_text(words[i].as_str(), "value") {
            stop = true;
        } else {
            push_word(&mut name, words[i].as_str());
            i = i + 1;
        }
    }
    let end = if stop {
        i + 1
    } else {
        n
    };
    let ghost e = end;
    assert(name_words(ws, 2, seq![]) == (name@, e as int));
    let mut value = String::new();
    let mut j = end;
    while j < n
        invariant
            n == words@.len(),
            ws == texts(words@),
            joined(ws, e as int, seq![]) == joined(ws, j as int, value@),
        decreases n - j,
    {
        assert(ws[j as int] == words@[j as int]@);
        push_word(&mut value, words[j].as_str());
        j = j + 1;
    }
    (name, value)
}

/// The first word of `ws`, or nothing if there is none.
pub open spec fn first_word(ws: Seq<Seq<char>>) -> Seq<char> {
    if ws.len() == 0 {
        seq![]
    } else {
        ws[0]
    }
}

/// Whether `w` is the word of a command.
pub open spec fn is_command_word(w: Seq<char>) -> bool {
    w == "quit"@ || w == "uci"@ || w == "stop"@ || w == "ponderhit"@ || w == "position"@ || w
        == "setoption"@ || w == "ucinewgame"@ || w == "go"@ || w == "isready"@
}

/// Whether `c` is the command that a line of words `ws` gives: its first
/// word names the command, and the words after it give the option of
/// `setoption` and the limits and moves of `go`.
pub open spec fn parsed(ws: Seq<Seq<char>>, c: Command) -> bool {
    let w = first_word(ws);
    match c {
        Command::Quit => w == "quit"@,
        Command::Uci => w == "uci"@,
        Command::Stop => w == "stop"@,
        Command::PonderHit => w == "ponderhit"@,
        Command::Position => w == "position"@,
        Command::SetOption(n, v, q) => w == "setoption"@ && n@ == name_words(ws, 2, seq![]).0 && v@
            == joined(ws, name_words(ws, 2, seq![]).1, seq![]) && q == option_request(n@, v@),
        Command::NewGame => w == "ucinewgame"@,
        Command::Go(l, m) => w == "go"@ && (l, texts(m@)) == go_words(ws.skip(1), Limits::none()),
        Command::IsReady => w == "isready"@,
        Command::Unknown => !is_command_word(w),
    }
}

/// Returns the request of a `setoption` command for the option `name` with `value`.
pub fn request_of(name: &str, value: &str) -> (r: OptionRequest)
    ensures
        r == option_request(name@, value@),
{
    if crate::text::matches_ignore_case(name, "threads") {
        OptionRequest::Threads
    } else if crate::text::matches_ignore_case(name, "hash") {
        OptionRequest::Hash(parse_number(value))
    } else {
        OptionRequest::Unknown
    }
}

/// Returns the command that the words of a line give.
pub fn parse_command(words: &Vec<String>) -> (r: Command)
    ensures
        parsed(texts(words@), r),
{
    let ghost ws = texts(words@);
    if words.len() == 0 {
        proof {
            reveal_strlit("quit");
            reveal_strlit("uci");
            reveal_strlit("stop");
            reveal_strlit("ponderhit");
            reveal_strlit("position");
            reveal_strlit("setoption");
            reveal_strlit("ucinewgame");
            reveal_strlit("go");
            reveal_strlit("isready");
            assert(ws.len() == 0);
            assert(first_word(ws).len() == 0);
            assert("quit"@.len() == 4 && "uci"@.len() == 3 && "stop"@.len() == 4
                && "ponderhit"@.len() == 9 && "position"@.len() == 8 && "setoption"@.len() == 9
                && "ucinewgame"@.len() == 10 && "go"@.len() == 2 && "isready"@.len() == 7);
        }
        return Command::Unknown;
    }
    assert(ws[0] == words@[0]@);
    let w = words[0].as_str();
    if same_text(w, "quit") {
        Command::Quit
    } else if same_text(w, "uci") {
        Command::Uci
    } else if same_text(w, "stop") {
        Command::Stop
    } else if same_text(w, "ponderhit") {
        Command::PonderHit
    } else if same_text(w, "position") {
        Command::Position
    } else if same_text(w, "setoption") {
        let (name, value) = option_words(words);
        let q = request_of(name.as_str(), value.as_str());
        Command::SetOption(name, value, q)
    } else if same_text(w, "ucinewgame") {
        Command::NewGame
    } else if same_text(w, "go") {
        let (l, m) = go_limits(words, 1);
        Command::Go(l, m)
    } else if same_text(w, "isready") {
        Command::IsReady
    } else {
        Command::Unknown
    }
}

/// Whether `r` is what running the text `command` gives: for an empty
/// text, one unknown command; else the command of each line in turn, up to
/// and including the first `quit`.
pub open spec fn ran(command: Seq<char>, r: Seq<Command>) -> bool {
    if command.len() == 0 {
        r.len() == 1 && r[0] is Unknown
    } else {
        let ls = lines_of(command);
        r.len() <= ls.len() && (forall|i: int| 0 <= i < r.len() ==> parsed(words_of(ls[i]), #[trigger] r[i]))
            && (forall|i: int| 0 <= i < r.len() - 1 ==> !(#[trigger] r[i] is Quit)) && (r.len()
            < ls.len() ==> r.len() > 0 && r.last() is Quit)
    }
}

/// Chess engine options.
pub struct Options {
    num_threads: usize,
}

impl Options {
    /// The number of threads the engine is to use; zero leaves the choice to the engine.
    pub closed spec fn spec_num_threads(self) -> usize {
        self.num_threads
    }

    /// Returns `self` with the number of threads set to `num_threads`.
    pub fn num_threads(self, num_threads: usize) -> (r: Options)
        ensures
            r.spec_num_threads() == num_threads,
    {
        let mut o = self;
        o.num_threads = num_threads;
        o
    }

    /// Tries to set the option `name` to `value`, and returns whether
    /// `name` is an option. No option can be set this way yet, so it
    /// returns `false` and leaves `self` as it is.
    pub fn set(&mut self, name: &str, value: &str) -> (r: bool)
        ensures
            !r,
            final(self).spec_num_threads() == old(self).spec_num_threads(),
    {
        false
    }
}

impl Default for Options {
    fn default() -> (r: Options)
        ensures
            r.spec_num_threads() == 0,
    {
        Options { num_threads: 0 }
    }
}

/// An instance of the chess engine.
pub struct Engine {
    options: Options,
}

impl Engine {
    /// The options of the engine.
    pub closed spec fn spec_options(self) -> Options {
        self.options
    }

    /// Returns an engine with `options`.
    pub fn new(options: Options) -> (r: Engine)
        ensures
            r.spec_options() == options,
    {
        Engine { options }
    }

    /// Returns the protocol interface of `self`.
    pub fn uci(&mut self) -> (r: Uci<'_>)
        ensures
            *r.spec_engine() == *old(self),
            *final(self) == *final(r.spec_engine()),
    {
        Uci(self)
    }
}

impl Default for Engine {
    fn default() -> (r: Engine)
        ensures
            r.spec_options().spec_num_threads() == 0,
    {
        Engine::new(Options::default())
    }
}

/// The engine behind the text protocol (UCI).
pub struct Uci<'a>(&'a mut Engine);

impl<'a> Uci<'a> {
    /// The engine behind `self`.
    pub closed spec fn spec_engine(self) -> &'a mut Engine {
        self.0
    }

    /// Returns the engine behind `self`.
    pub fn engine(&self) -> (r: &Engine)
        ensures
            *r == *self.spec_engine(),
    {
        &self.0
    }

    /// Returns the engine behind `self`, to change it.
    pub fn engine_mut(&mut self) -> (r: &mut Engine)
        ensures
            *r == *old(self).spec_engine(),
            *final(self).spec_engine() == *final(r),
    {
        &mut self.0
    }

    /// Runs the text `command`: returns the command of each of its lines, up
    /// to and including the first `quit`; for an empty text, one unknown
    /// command.
    pub fn run(&mut self, command: &str) -> (r: Vec<Command>)
        ensures
            ran(command@, r@),
    {
        let mut out: Vec<Command> = Vec::new();
        if command.is_empty() {
            out.push(Command::Unknown);
            return out;
        }
        let lines = split_lines(command);
        let ghost ls = lines_of(command@);
        let n = lines.len();
        let mut i: usize = 0;
        while i < n
            invariant
                n == lines@.len(),
                texts(lines@) == ls,
                ls == lines_of(command@),
                command@.len() > 0,
                i <= n,
                out@.len() == i,
                forall|j: int| 0 <= j < i ==> parsed(words_of(ls[j]), #[trigger] out@[j]),
                forall|j: int| 0 <= j < i ==> !(#[trigger] out@[j] is Quit),
            decreases n - i,
        {
            assert(ls[i as int] == lines@[i as int]@);
            let words = split_words(lines[i].as_str());
            let c = parse_command(&words);
            let quit = matches!(c, Command::Quit);
            out.push(c);
            if quit {
                return out;
            }
            i = i + 1;
        }
        out
    }

    /// Runs each text of `commands` in turn, and returns what each gave.
    pub fn start_with(&mut self, commands: &Vec<String>) -> (r: Vec<Vec<Command>>)
        ensures
            r@.len() == commands@.len(),
            forall|i: int| 0 <= i < r@.len() ==> ran(commands@[i]@, #[trigger] r@[i]@),
    {
        let mut out: Vec<Vec<Command>> = Vec::new();
        let mut i: usize = 0;
        while i < commands.len()
            invariant
                i <= commands@.len(),
                out@.len() == i,
                forall|j: int| 0 <= j < i ==> ran(commands@[j]@, #[trigger] out@[j]@),
            decreases commands@.len() - i,
        {
            let r = self.run(commands[i].as_str());
            out.push(r);
            i = i + 1;
        }
        out
    }
}

} // verus!
