use vstd::prelude::*;
use vstd::string::StrSliceExecFns;

verus! {

/// A command line could not be understood.
#[derive(Debug, Clone, Copy, PartialEq, Eq, Structural)]
pub enum UciParseError {
    InvalidSyntax,
}

/// Where a `position` command puts the board before its moves. Token
/// ranges index the command's tokens.
#[derive(Debug, Clone, Copy, PartialEq, Eq, Structural)]
pub enum Setup {
    /// No setup given: the board stays as it is.
    Keep,
    StartPos,
    /// The FEN is the tokens `from..to`, each followed by a space.
    Fen { from: usize, to: usize },
}

/// How a `go` command asks to search.
#[derive(Debug, Clone, Copy, PartialEq, Eq, Structural)]
pub enum GoCommand {
    /// Search for this many milliseconds.
    Timed(u64),
    /// Search to this depth.
    Depth(usize),
    /// Count the leaf nodes to this depth instead of searching.
    Perft(u32),
}

/// A command of the engine's text protocol.
#[derive(Debug, Clone, Copy, PartialEq, Eq, Structural)]
pub enum Command {
    Undo,
    ShowFen,
    ShowBoard,
    Uci,
    IsReady,
    NewGame,
    /// Set up a position, then play the moves in the tokens from
    /// `moves_from` on (`None`: no moves).
    Position { setup: Setup, moves_from: Option<usize> },
    /// New per-move time budget in milliseconds (`None`: no budget).
    SetMoveTime(Option<u64>),
    /// An option this engine does not have, or no value for it.
    IgnoredOption,
    Go(GoCommand),
    Stop,
}

/// Splits `s` at every space; consecutive spaces give empty tokens.
pub open spec fn split_tokens(s: Seq<char>) -> Seq<Seq<char>>
    decreases s.len(),
{
    if s.len() == 0 {
        seq![Seq::<char>::empty()]
    } else {
        let rest = split_tokens(s.drop_last());
        if s.last() == ' ' {
            rest.push(Seq::<char>::empty())
        } else {
            rest.update(rest.len() - 1, rest.last().push(s.last()))
        }
    }
}

pub open spec fn tokens_view(v: Seq<Vec<char>>) -> Seq<Seq<char>> {
    v.map_values(|t: Vec<char>| t@)
}

pub proof fn lemma_split_nonempty(s: Seq<char>)
    ensures
        split_tokens(s).len() >= 1,
    decreases s.len(),
{
    if s.len() > 0 {
        lemma_split_nonempty(s.drop_last());
    }
}

/// The tokens of a command line: the pieces between single spaces.
pub fn tokenize(line: &str) -> (r: Vec<Vec<char>>)
    ensures
        tokens_view(r@) == split_tokens(line@),
        r@.len() >= 1,
{
    let n = line.unicode_len();
    let mut done: Vec<Vec<char>> = Vec::new();
    let mut cur: Vec<char> = Vec::new();
    let mut i: usize = 0;
    while i < n
        invariant
            n == line@.len(),
            i <= n,
            tokens_view(done@).push(cur@) == split_tokens(line@.take(i as int)),
        decreases n - i,
    {
        let c = line.get_char(i);
        let ghost before = line@.take(i as int);
        proof {
            assert(line@.take(i + 1).drop_last() =~= before);
            lemma_split_nonempty(before);
        }
        if c == ' ' {
            let ghost old_done = done@;
            let ghost old_cur = cur@;
            done.push(cur);
            cur = Vec::new();
            assert(tokens_view(done@) =~= tokens_view(old_done).push(old_cur));
            assert(tokens_view(done@).push(cur@) =~= split_tokens(line@.take(i + 1)));
        } else {
            cur.push(c);
            assert(tokens_view(done@).push(cur@) =~= split_tokens(line@.take(i + 1)));
        }
        i = i + 1;
    }
    assert(line@.take(n as int) =~= line@);
    let ghost old_done = done@;
    done.push(cur);
    assert(tokens_view(done@) =~= tokens_view(old_done).push(cur@));
    done
}

pub open spec fn is_digit(c: char) -> bool {
    '0' <= c <= '9'
}

pub open spec fn all_digits(s: Seq<char>) -> bool {
    forall|i: int| 0 <= i < s.len() ==> is_digit(#[trigger] s[i])
}

/// Value of a string of decimal digits.
pub open spec fn digits_value(s: Seq<char>) -> int
    decreases s.len(),
{
    if s.len() == 0 {
        0
    } else {
        digits_value(s.drop_last()) * 10 + (s.last() as int - '0' as int)
    }
}

/// Digits after an optional sign character `sign`.
pub open spec fn unsigned_body(s: Seq<char>) -> Seq<char> {
    if s.len() > 0 && s[0] == '+' { s.drop_first() } else { s }
}

/// Value of `s` read as an unsigned decimal no larger than `max`: an
/// optional `+`, then one or more digits.
pub open spec fn unsigned_value(s: Seq<char>, max: int) -> Option<int> {
    let body = unsigned_body(s);
    if body.len() > 0 && all_digits(body) && digits_value(body) <= max {
        Some(digits_value(body))
    } else {
        None
    }
}

/// Value of `s` read as an `i32` in decimal: an optional `+` or `-`, then
/// one or more digits.
pub open spec fn i32_value(s: Seq<char>) -> Option<int> {
    if s.len() > 0 && s[0] == '-' {
        let body = s.drop_first();
        if body.len() > 0 && all_digits(body) && digits_value(body) <= 0x8000_0000 {
            Some(-digits_value(body))
        } else {
            None
        }
    } else {
        unsigned_value(s, 0x7fff_ffff)
    }
}

proof fn lemma_digits_nonneg(s: Seq<char>)
    requires
        all_digits(s),
    ensures
        digits_value(s) >= 0,
    decreases s.len(),
{
    if s.len() > 0 {
        lemma_digits_nonneg(s.drop_last());
    }
}

/// Reads `s[start..]` as decimal digits; `None` when one is not a digit or
/// the value exceeds `max`.
fn read_digits(s: &Vec<char>, start: usize, max: u64) -> (r: Option<u64>)
    requires
        start <= s@.len(),
    ensures
        match r {
            Some(v) => all_digits(s@.subrange(start as int, s@.len() as int))
                && v == digits_value(s@.subrange(start as int, s@.len() as int)) && v <= max,
            None => !(all_digits(s@.subrange(start as int, s@.len() as int))
                && digits_value(s@.subrange(start as int, s@.len() as int)) <= max),
        },
{
    let mut v: u64 = 0;
    let mut i: usize = start;
    while i < s.len()
        invariant
            start <= i <= s@.len(),
            all_digits(s@.subrange(start as int, i as int)),
            v == digits_value(s@.subrange(start as int, i as int)),
            v <= max,
        decreases s@.len() - i,
    {
        let c = s[i];
        let ghost prefix = s@.subrange(start as int, i as int);
        let ghost next = s@.subrange(start as int, i + 1);
        assert(next.drop_last() =~= prefix);
        if !('0' <= c && c <= '9') {
            assert(!all_digits(s@.subrange(start as int, s@.len() as int))) by {
                assert(s@.subrange(start as int, s@.len() as int)[i - start] == c);
            }
            return None;
        }
        let d = (c as u32 - '0' as u32) as u64;
        let grown = match v.checked_mul(10) {
            Some(t) => t.checked_add(d),
            None => None,
        };
        match grown {
            Some(w) if w <= max => {
                v = w;
            },
            _ => {
                proof {
                    lemma_digits_grow(s@, start as int, i as int);
                }
                return None;
            },
        }
        i = i + 1;
    }
    assert(s@.subrange(start as int, i as int) =~= s@.subrange(start as int, s@.len() as int));
    Some(v)
}

/// Once a digit string's prefix is over a bound, the whole string is too.
proof fn lemma_digits_grow(s: Seq<char>, start: int, i: int)
    requires
        0 <= start <= i < s.len(),
        all_digits(s.subrange(start, i + 1)),
    ensures
        forall|j: int| i < j <= s.len() && all_digits(#[trigger] s.subrange(start, j))
            ==> digits_value(s.subrange(start, j)) >= digits_value(s.subrange(start, i + 1)),
    decreases s.len() - i,
{
    assert forall|j: int| i < j <= s.len() && all_digits(#[trigger] s.subrange(start, j))
        implies digits_value(s.subrange(start, j)) >= digits_value(s.subrange(start, i + 1)) by {
        lemma_digits_prefix(s, start, i + 1, j);
    }
}

proof fn lemma_digits_prefix(s: Seq<char>, start: int, k: int, j: int)
    requires
        0 <= start <= k <= j <= s.len(),
        all_digits(s.subrange(start, j)),
    ensures
        digits_value(s.subrange(start, j)) >= digits_value(s.subrange(start, k)),
    decreases j - k,
{
    if j > k {
        assert(s.subrange(start, j).drop_last() =~= s.subrange(start, j - 1));
        assert(all_digits(s.subrange(start, j - 1))) by {
            assert forall|t: int| 0 <= t < j - 1 - start implies is_digit(#[trigger] s.subrange(start, j - 1)[t]) by {
                assert(s.subrange(start, j - 1)[t] == s.subrange(start, j)[t]);
            }
        }
        lemma_digits_prefix(s, start, k, j - 1);
        lemma_digits_nonneg(s.subrange(start, j - 1));
    }
}

/// Reads a token as an unsigned decimal no larger than `max`.
pub fn parse_unsigned(t: &Vec<char>, max: u64) -> (r: Option<u64>)
    ensures
        match unsigned_value(t@, max as int) {
            Some(v) => r == Some(v as u64) && 0 <= v <= max,
            None => r is None,
        },
{
    proof {
        if all_digits(unsigned_body(t@)) {
            lemma_digits_nonneg(unsigned_body(t@));
        }
    }
    let start: usize = if t.len() > 0 && t[0] == '+' { 1 } else { 0 };
    assert(t@.subrange(start as int, t@.len() as int) =~= unsigned_body(t@));
    if start == t.len() {
        return None;
    }
    read_digits(t, start, max)
}

/// Reads a token as an `i32` in decimal.
pub fn parse_i32(t: &Vec<char>) -> (r: Option<i32>)
    ensures
        match i32_value(t@) {
            Some(v) => r == Some(v as i32) && -0x8000_0000 <= v <= 0x7fff_ffff,
            None => r is None,
        },
{
    proof {
        if t@.len() > 0 && all_digits(t@.drop_first()) {
            lemma_digits_nonneg(t@.drop_first());
        }
    }
    if t.len() > 0 && t[0] == '-' {
        assert(t@.subrange(1, t@.len() as int) =~= t@.drop_first());
        if t.len() == 1 {
            return None;
        }
        match read_digits(t, 1, 0x8000_0000) {
            Some(m) => {
                let neg: i64 = 0 - m as i64;
                proof {
                    lemma_digits_nonneg(t@.drop_first());
                }
                Some(neg as i32)
            },
            None => None,
        }
    } else {
        proof {
            if all_digits(unsigned_body(t@)) {
                lemma_digits_nonneg(unsigned_body(t@));
            }
        }
        match parse_unsigned(t, 0x7fff_ffff) {
            Some(v) => Some(v as i32),
            None => None,
        }
    }
}

/// Token `t` is the word `w`.
fn is_word(t: &Vec<char>, w: &str) -> (r: bool)
    ensures
        r == (t@ == w@),
{
    let n = w.unicode_len();
    if t.len() != n {
        return false;
    }
    let mut i: usize = 0;
    while i < n
        invariant
            n == w@.len(),
            t@.len() == n,
            i <= n,
            forall|k: int| 0 <= k < i ==> t@[k] == w@[k],
        decreases n - i,
    {
        if t[i] != w.get_char(i) {
            return false;
        }
        i = i + 1;
    }
    assert(t@ =~= w@);
    true
}

/// Default search time of a `go` without limits, in milliseconds.
pub const DEFAULT_GO_MS: u64 = 100;

/// Search time of `go infinite`, in milliseconds.
pub const INFINITE_GO_MS: u64 = 500;

/// Index of the first token `w` from `i` on (the token count when none).
pub open spec fn first_word_from(t: Seq<Seq<char>>, w: Seq<char>, i: int) -> int
    decreases t.len() - i,
{
    if i < 0 || i >= t.len() {
        t.len() as int
    } else if t[i] == w {
        i
    } else {
        first_word_from(t, w, i + 1)
    }
}

/// After the setup of a `position` command: nothing, or `moves` and the
/// moves.
pub open spec fn moves_tail(t: Seq<Seq<char>>, setup: Setup, i: int) -> Result<Command, UciParseError> {
    if i >= t.len() {
        Ok(Command::Position { setup, moves_from: None })
    } else if t[i] == "moves"@ {
        Ok(Command::Position { setup, moves_from: Some((i + 1) as usize) })
    } else {
        Err(UciParseError::InvalidSyntax)
    }
}

/// `position [startpos | fen <fields>] [moves <move>...]`
pub open spec fn position_of(t: Seq<Seq<char>>) -> Result<Command, UciParseError> {
    if t.len() < 2 {
        Ok(Command::Position { setup: Setup::Keep, moves_from: None })
    } else if t[1] == "startpos"@ {
        moves_tail(t, Setup::StartPos, 2)
    } else if t[1] == "fen"@ {
        let k = first_word_from(t, "moves"@, 2);
        moves_tail(t, Setup::Fen { from: 2, to: k as usize }, k)
    } else {
        Err(UciParseError::InvalidSyntax)
    }
}

/// `setoption name <id> [value <v>]`; only `movetime` is known, and 0
/// turns its budget off.
pub open spec fn setoption_of(t: Seq<Seq<char>>) -> Result<Command, UciParseError> {
    if !(t.len() >= 2 && t[1] == "name"@) {
        Err(UciParseError::InvalidSyntax)
    } else if t.len() < 3 {
        Err(UciParseError::InvalidSyntax)
    } else if !(t.len() >= 4 && t[3] == "value"@) {
        Ok(Command::IgnoredOption)
    } else if t.len() < 5 {
        Err(UciParseError::InvalidSyntax)
    } else if t[2] == "movetime"@ {
        match unsigned_value(t[4], 0xffff_ffff_ffff_ffff) {
            Some(v) => Ok(Command::SetMoveTime(if v == 0 { None } else { Some(v as u64) })),
            None => Err(UciParseError::InvalidSyntax),
        }
    } else {
        Ok(Command::IgnoredOption)
    }
}

pub open spec fn clock_word(w: Seq<char>) -> bool {
    w == "wtime"@ || w == "btime"@ || w == "winc"@ || w == "binc"@ || w == "movestogo"@
}

/// The arguments of `go` from token `i` on: clock arguments are skipped
/// with their value, the first of `movetime`, `depth`, `infinite` and
/// `perft` decides, unknown words are passed over, and without any the
/// search runs for the default time.
pub open spec fn go_args(t: Seq<Seq<char>>, i: int) -> Result<Command, UciParseError>
    decreases t.len() - i,
{
    if i < 0 || i >= t.len() {
        Ok(Command::Go(GoCommand::Timed(DEFAULT_GO_MS)))
    } else if clock_word(t[i]) {
        if i + 1 >= t.len() { Err(UciParseError::InvalidSyntax) } else { go_args(t, i + 2) }
    } else if t[i] == "movetime"@ {
        if i + 1 >= t.len() {
            Err(UciParseError::InvalidSyntax)
        } else {
            match unsigned_value(t[i + 1], 0xffff_ffff_ffff_ffff) {
                Some(v) => Ok(Command::Go(GoCommand::Timed(v as u64))),
                None => Err(UciParseError::InvalidSyntax),
            }
        }
    } else if t[i] == "depth"@ {
        if i + 1 >= t.len() {
            Err(UciParseError::InvalidSyntax)
        } else {
            match i32_value(t[i + 1]) {
                Some(d) => Ok(Command::Go(GoCommand::Depth(if d < 0 { 0 } else { d as usize }))),
                None => Err(UciParseError::InvalidSyntax),
            }
        }
    } else if t[i] == "infinite"@ {
        Ok(Command::Go(GoCommand::Timed(INFINITE_GO_MS)))
    } else if t[i] == "perft"@ {
        if i + 1 >= t.len() {
            Err(UciParseError::InvalidSyntax)
        } else {
            match unsigned_value(t[i + 1], 0xffff_ffff) {
                Some(v) => Ok(Command::Go(GoCommand::Perft(v as u32))),
                None => Err(UciParseError::InvalidSyntax),
            }
        }
    } else {
        go_args(t, i + 1)
    }
}

/// Indices of the words of a `go` command, from token `i` on, that the
/// command passes over as unknown (see `go_args`).
pub open spec fn go_unknown(t: Seq<Seq<char>>, i: int) -> Seq<int>
    decreases t.len() - i,
{
    if i < 0 || i >= t.len() {
        Seq::<int>::empty()
    } else if clock_word(t[i]) {
        if i + 1 >= t.len() { Seq::<int>::empty() } else { go_unknown(t, i + 2) }
    } else if t[i] == "movetime"@ || t[i] == "depth"@ || t[i] == "infinite"@ || t[i] == "perft"@ {
        Seq::<int>::empty()
    } else {
        seq![i] + go_unknown(t, i + 1)
    }
}

/// The unknown words of a `go` command's arguments, by token index, for a
/// diagnostic.
pub fn go_unknown_words(t: &Vec<Vec<char>>) -> (r: Vec<usize>)
    ensures
        r@.map_values(|k: usize| k as int) == go_unknown(tokens_view(t@), 1),
{
    let mut r: Vec<usize> = Vec::new();
    let mut i: usize = 1;
    while i < t.len()
        invariant
            1 <= i,
            go_unknown(tokens_view(t@), 1) == r@.map_values(|k: usize| k as int) + go_unknown(tokens_view(t@), i as int),
        decreases t@.len() - i,
    {
        let a = &t[i];
        if is_clock_word(a) {
            if i + 1 >= t.len() {
                assert(r@.map_values(|k: usize| k as int) + Seq::<int>::empty() =~= r@.map_values(|k: usize| k as int));
                return r;
            }
            i = i + 2;
        } else if is_word(a, "movetime") || is_word(a, "depth") || is_word(a, "infinite") || is_word(a, "perft") {
            assert(r@.map_values(|k: usize| k as int) + Seq::<int>::empty() =~= r@.map_values(|k: usize| k as int));
            return r;
        } else {
            let ghost before = r@.map_values(|k: usize| k as int);
            r.push(i);
            assert(r@.map_values(|k: usize| k as int) =~= before.push(i as int));
            assert(before + (seq![i as int] + go_unknown(tokens_view(t@), i + 1)) =~= before.push(i as int) + go_unknown(tokens_view(t@), i + 1));
            i = i + 1;
        }
    }
    assert(r@.map_values(|k: usize| k as int) + Seq::<int>::empty() =~= r@.map_values(|k: usize| k as int));
    r
}

/// `go`: a per-move budget set by `setoption` overrides the arguments.
pub open spec fn go_of(t: Seq<Seq<char>>, movetime: Option<u64>) -> Result<Command, UciParseError> {
    match movetime {
        Some(ms) => Ok(Command::Go(GoCommand::Timed(ms))),
        None => go_args(t, 1),
    }
}

/// The command that the tokens `t` spell, given the engine's per-move
/// budget `movetime`.
pub open spec fn command_of(t: Seq<Seq<char>>, movetime: Option<u64>) -> Result<Command, UciParseError> {
    if t.len() == 0 {
        Err(UciParseError::InvalidSyntax)
    } else {
        let c = t[0];
        if c == "undo"@ {
            Ok(Command::Undo)
        } else if c == "fen"@ {
            Ok(Command::ShowFen)
        } else if c == "board"@ || c == "d"@ {
            Ok(Command::ShowBoard)
        } else if c == "uci"@ {
            Ok(Command::Uci)
        } else if c == "isready"@ {
            Ok(Command::IsReady)
        } else if c == "ucinewgame"@ {
            Ok(Command::NewGame)
        } else if c == "position"@ {
            position_of(t)
        } else if c == "setoption"@ {
            setoption_of(t)
        } else if c == "go"@ {
            go_of(t, movetime)
        } else if c == "stop"@ {
            Ok(Command::Stop)
        } else {
            Err(UciParseError::InvalidSyntax)
        }
    }
}

fn find_word(t: &Vec<Vec<char>>, w: &str, from: usize) -> (r: usize)
    requires
        from <= t@.len(),
    ensures
        r == first_word_from(tokens_view(t@), w@, from as int),
        from <= r <= t@.len(),
{
    let mut i: usize = from;
    while i < t.len()
        invariant
            from <= i <= t@.len(),
            first_word_from(tokens_view(t@), w@, from as int) == first_word_from(tokens_view(t@), w@, i as int),
        decreases t@.len() - i,
    {
        if is_word(&t[i], w) {
            return i;
        }
        i = i + 1;
    }
    i
}

fn parse_moves_tail(t: &Vec<Vec<char>>, setup: Setup, i: usize) -> (r: Result<Command, UciParseError>)
    requires
        i <= t@.len(),
    ensures
        r == moves_tail(tokens_view(t@), setup, i as int),
{
    if i >= t.len() {
        Ok(Command::Position { setup, moves_from: None })
    } else if is_word(&t[i], "moves") {
        Ok(Command::Position { setup, moves_from: Some(i + 1) })
    } else {
        Err(UciParseError::InvalidSyntax)
    }
}

fn parse_position(t: &Vec<Vec<char>>) -> (r: Result<Command, UciParseError>)
    ensures
        r == position_of(tokens_view(t@)),
{
    if t.len() < 2 {
        Ok(Command::Position { setup: Setup::Keep, moves_from: None })
    } else if is_word(&t[1], "startpos") {
        parse_moves_tail(t, Setup::StartPos, 2)
    } else if is_word(&t[1], "fen") {
        let k = find_word(t, "moves", 2);
        parse_moves_tail(t, Setup::Fen { from: 2, to: k }, k)
    } else {
        Err(UciParseError::InvalidSyntax)
    }
}

fn parse_setoption(t: &Vec<Vec<char>>) -> (r: Result<Command, UciParseError>)
    ensures
        r == setoption_of(tokens_view(t@)),
{
    if !(t.len() >= 2 && is_word(&t[1], "name")) {
        Err(UciParseError::InvalidSyntax)
    } else if t.len() < 3 {
        Err(UciParseError::InvalidSyntax)
    } else if !(t.len() >= 4 && is_word(&t[3], "value")) {
        Ok(Command::IgnoredOption)
    } else if t.len() < 5 {
        Err(UciParseError::InvalidSyntax)
    } else if is_word(&t[2], "movetime") {
        match parse_unsigned(&t[4], 0xffff_ffff_ffff_ffff) {
            Some(v) => Ok(Command::SetMoveTime(if v == 0 { None } else { Some(v) })),
            None => Err(UciParseError::InvalidSyntax),
        }
    } else {
        Ok(Command::IgnoredOption)
    }
}

fn is_clock_word(w: &Vec<char>) -> (r: bool)
    ensures
        r == clock_word(w@),
{
    is_word(w, "wtime") || is_word(w, "btime") || is_word(w, "winc") || is_word(w, "binc") || is_word(w, "movestogo")
}

fn parse_go_args(t: &Vec<Vec<char>>) -> (r: Result<Command, UciParseError>)
    ensures
        r == go_args(tokens_view(t@), 1),
{
    let mut i: usize = 1;
    while i < t.len()
        invariant
            1 <= i,
            go_args(tokens_view(t@), 1) == go_args(tokens_view(t@), i as int),
        decreases t@.len() - i,
    {
        let a = &t[i];
        if is_clock_word(a) {
            if i + 1 >= t.len() {
                return Err(UciParseError::InvalidSyntax);
            }
            i = i + 2;
        } else if is_word(a, "movetime") {
            if i + 1 >= t.len() {
                return Err(UciParseError::InvalidSyntax);
            }
            return match parse_unsigned(&t[i + 1], 0xffff_ffff_ffff_ffff) {
                Some(v) => Ok(Command::Go(GoCommand::Timed(v))),
                None => Err(UciParseError::InvalidSyntax),
            };
        } else if is_word(a, "depth") {
            if i + 1 >= t.len() {
                return Err(UciParseError::InvalidSyntax);
            }
            return match parse_i32(&t[i + 1]) {
                Some(d) => Ok(Command::Go(GoCommand::Depth(if d < 0 { 0 } else { d as usize }))),
                None => Err(UciParseError::InvalidSyntax),
            };
        } else if is_word(a, "infinite") {
            return Ok(Command::Go(GoCommand::Timed(INFINITE_GO_MS)));
        } else if is_word(a, "perft") {
            if i + 1 >= t.len() {
                return Err(UciParseError::InvalidSyntax);
            }
            return match parse_unsigned(&t[i + 1], 0xffff_ffff) {
                Some(v) => Ok(Command::Go(GoCommand::Perft(v as u32))),
                None => Err(UciParseError::InvalidSyntax),
            };
        } else {
            i = i + 1;
        }
    }
    Ok(Command::Go(GoCommand::Timed(DEFAULT_GO_MS)))
}

/// The command that a line's tokens spell (see `command_of`); `movetime`
/// is the per-move budget set earlier, which a `go` obeys over its own
/// arguments.
pub fn parse_command(tokens: &Vec<Vec<char>>, movetime: Option<u64>) -> (r: Result<Command, UciParseError>)
    ensures
        r == command_of(tokens_view(tokens@), movetime),
{
    if tokens.len() == 0 {
        return Err(UciParseError::InvalidSyntax);
    }
    let c = &tokens[0];
    if is_word(c, "undo") {
        Ok(Command::Undo)
    } else if is_word(c, "fen") {
        Ok(Command::ShowFen)
    } else if is_word(c, "board") || is_word(c, "d") {
        Ok(Command::ShowBoard)
    } else if is_word(c, "uci") {
        Ok(Command::Uci)
    } else if is_word(c, "isready") {
        Ok(Command::IsReady)
    } else if is_word(c, "ucinewgame") {
        Ok(Command::NewGame)
    } else if is_word(c, "position") {
        parse_position(tokens)
    } else if is_word(c, "setoption") {
        parse_setoption(tokens)
    } else if is_word(c, "go") {
        match movetime {
            Some(ms) => Ok(Command::Go(GoCommand::Timed(ms))),
            None => parse_go_args(tokens),
        }
    } else if is_word(c, "stop") {
        Ok(Command::Stop)
    } else {
        Err(UciParseError::InvalidSyntax)
    }
}

/// Tokenizes `line` and reads the command it spells.
pub fn parse_line(line: &str, movetime: Option<u64>) -> (r: Result<Command, UciParseError>)
    ensures
        r == command_of(split_tokens(line@), movetime),
{
    let tokens = tokenize(line);
    parse_command(&tokens, movetime)
}

/// The protocol state this library keeps between commands: the per-move
/// search budget. The board, the cancellation flag and the output belong to
/// the front end that carries the commands out.
#[derive(Debug, Clone, Copy, PartialEq, Eq, Structural)]
pub struct UCIEngine {
    pub option_movetime: Option<u64>,
}

impl UCIEngine {
    /// No per-move budget set.
    pub fn new() -> (r: Self)
        ensures
            r.option_movetime is None,
    {
        UCIEngine { option_movetime: None }
    }

    /// Reads one command line and applies what it changes in the protocol
    /// state: `setoption name movetime value <ms>` sets (or, with 0, clears)
    /// the per-move budget, which later `go` commands obey.
    pub fn execute_cmd(&mut self, message: &str) -> (r: Result<Command, UciParseError>)
        ensures
            r == command_of(split_tokens(message@), old(self).option_movetime),
            final(self).option_movetime == match r {
                Ok(Command::SetMoveTime(ms)) => ms,
                _ => old(self).option_movetime,
            },
    {
        let r = parse_line(message, self.option_movetime);
        if let Ok(Command::SetMoveTime(ms)) = r {
            self.option_movetime = ms;
        }
        r
    }
}

} // verus!
