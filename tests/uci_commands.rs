use giffibot::uci::{go_unknown_words, parse_line, tokenize, Command, GoCommand, Setup, UCIEngine, UciParseError};

fn parse(line: &str) -> Result<Command, UciParseError> {
    parse_line(line, None)
}

#[test]
fn simple_commands() {
    assert_eq!(parse("uci"), Ok(Command::Uci));
    assert_eq!(parse("isready"), Ok(Command::IsReady));
    assert_eq!(parse("ucinewgame"), Ok(Command::NewGame));
    assert_eq!(parse("stop"), Ok(Command::Stop));
    assert_eq!(parse("undo"), Ok(Command::Undo));
    assert_eq!(parse("fen"), Ok(Command::ShowFen));
    assert_eq!(parse("d"), Ok(Command::ShowBoard));
    assert_eq!(parse("board"), Ok(Command::ShowBoard));
    assert_eq!(parse("bogus"), Err(UciParseError::InvalidSyntax));
    assert_eq!(parse(""), Err(UciParseError::InvalidSyntax));
    assert_eq!(parse(" uci"), Err(UciParseError::InvalidSyntax));
}

#[test]
fn tokens_split_on_single_spaces() {
    let t = tokenize("go  depth 4");
    let words: Vec<String> = t.iter().map(|w| w.iter().collect()).collect();
    assert_eq!(words, vec!["go", "", "depth", "4"]);
    assert_eq!(tokenize("").len(), 1);
}

#[test]
fn position_commands() {
    assert_eq!(parse("position startpos"), Ok(Command::Position { setup: Setup::StartPos, moves_from: None }));
    assert_eq!(
        parse("position startpos moves e2e4 e7e5"),
        Ok(Command::Position { setup: Setup::StartPos, moves_from: Some(3) })
    );
    assert_eq!(
        parse("position fen 6k1/5ppp/8/8/8/8/5PPP/R5K1 w - - 0 1"),
        Ok(Command::Position { setup: Setup::Fen { from: 2, to: 8 }, moves_from: None })
    );
    assert_eq!(
        parse("position fen 6k1/5ppp/8/8/8/8/5PPP/R5K1 w - - 0 1 moves a1a8"),
        Ok(Command::Position { setup: Setup::Fen { from: 2, to: 8 }, moves_from: Some(9) })
    );
    assert_eq!(parse("position"), Ok(Command::Position { setup: Setup::Keep, moves_from: None }));
    assert_eq!(parse("position somewhere"), Err(UciParseError::InvalidSyntax));
    assert_eq!(parse("position startpos e2e4"), Err(UciParseError::InvalidSyntax));
}

#[test]
fn setoption_commands() {
    assert_eq!(parse("setoption name movetime value 200"), Ok(Command::SetMoveTime(Some(200))));
    assert_eq!(parse("setoption name movetime value 0"), Ok(Command::SetMoveTime(None)));
    assert_eq!(parse("setoption name movetime value +7"), Ok(Command::SetMoveTime(Some(7))));
    assert_eq!(parse("setoption name movetime value x"), Err(UciParseError::InvalidSyntax));
    assert_eq!(parse("setoption name movetime value"), Err(UciParseError::InvalidSyntax));
    assert_eq!(parse("setoption name hash value 16"), Ok(Command::IgnoredOption));
    assert_eq!(parse("setoption name movetime"), Ok(Command::IgnoredOption));
    assert_eq!(parse("setoption name"), Err(UciParseError::InvalidSyntax));
    assert_eq!(parse("setoption movetime"), Err(UciParseError::InvalidSyntax));
    assert_eq!(parse("setoption name movetime value 18446744073709551615"), Ok(Command::SetMoveTime(Some(u64::MAX))));
    assert_eq!(parse("setoption name movetime value 18446744073709551616"), Err(UciParseError::InvalidSyntax));
}

#[test]
fn go_commands() {
    assert_eq!(parse("go"), Ok(Command::Go(GoCommand::Timed(100))));
    assert_eq!(parse("go depth 4"), Ok(Command::Go(GoCommand::Depth(4))));
    assert_eq!(parse("go depth -3"), Ok(Command::Go(GoCommand::Depth(0))));
    assert_eq!(parse("go depth x"), Err(UciParseError::InvalidSyntax));
    assert_eq!(parse("go depth"), Err(UciParseError::InvalidSyntax));
    assert_eq!(parse("go movetime 50"), Ok(Command::Go(GoCommand::Timed(50))));
    assert_eq!(parse("go wtime 1000 btime 1000 depth 2"), Ok(Command::Go(GoCommand::Depth(2))));
    assert_eq!(parse("go wtime"), Err(UciParseError::InvalidSyntax));
    assert_eq!(parse("go infinite"), Ok(Command::Go(GoCommand::Timed(500))));
    assert_eq!(parse("go perft 3"), Ok(Command::Go(GoCommand::Perft(3))));
    assert_eq!(parse("go ponder depth 1"), Ok(Command::Go(GoCommand::Depth(1))));
    assert_eq!(parse("go depth 2147483648"), Err(UciParseError::InvalidSyntax));
    assert_eq!(parse_line("go depth 4", Some(200)), Ok(Command::Go(GoCommand::Timed(200))));
}

#[test]
fn engine_keeps_movetime_option() {
    let mut engine = UCIEngine::new();
    assert_eq!(engine.option_movetime, None);
    assert_eq!(engine.execute_cmd("go depth 4"), Ok(Command::Go(GoCommand::Depth(4))));
    assert_eq!(engine.execute_cmd("setoption name movetime value 200"), Ok(Command::SetMoveTime(Some(200))));
    assert_eq!(engine.option_movetime, Some(200));
    assert_eq!(engine.execute_cmd("go depth 4"), Ok(Command::Go(GoCommand::Timed(200))));
    assert_eq!(engine.execute_cmd("setoption name movetime value x"), Err(UciParseError::InvalidSyntax));
    assert_eq!(engine.option_movetime, Some(200));
    assert_eq!(engine.execute_cmd("setoption name movetime value 0"), Ok(Command::SetMoveTime(None)));
    assert_eq!(engine.execute_cmd("go"), Ok(Command::Go(GoCommand::Timed(100))));
}

#[test]
fn unknown_go_words_are_listed() {
    assert_eq!(go_unknown_words(&tokenize("go ponder wtime 5 nodes depth 3 extra")), vec![1, 4]);
    assert_eq!(go_unknown_words(&tokenize("go")), Vec::<usize>::new());
    assert_eq!(go_unknown_words(&tokenize("go infinite later")), Vec::<usize>::new());
}
