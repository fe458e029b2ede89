use splinter_transport::console::{is_white_space, parse, Command, ParseError};

#[test]
fn console_exit() {
    assert_eq!(parse("exit".to_string()), Ok(Command::Exit));
    assert_eq!(parse("  exit  ".to_string()), Ok(Command::Exit));
    assert_eq!(parse("exit now".to_string()), Ok(Command::Exit));
    assert_eq!(parse("\texit\n".to_string()), Ok(Command::Exit));
}

#[test]
fn console_listen() {
    assert_eq!(
        parse("listen tcp://127.0.0.1:8080".to_string()),
        Ok(Command::Listen("tcp://127.0.0.1:8080".to_string()))
    );
    assert_eq!(
        parse("  listen \t 127.0.0.1:0   and more".to_string()),
        Ok(Command::Listen("127.0.0.1:0".to_string()))
    );
    assert_eq!(
        parse("listen\u{3000}ws://h\u{e9}te:1".to_string()),
        Ok(Command::Listen("ws://h\u{e9}te:1".to_string()))
    );
}

#[test]
fn console_rejects_what_is_no_command() {
    assert_eq!(parse("".to_string()), Err(ParseError));
    assert_eq!(parse("   ".to_string()), Err(ParseError));
    assert_eq!(parse("listen".to_string()), Err(ParseError));
    assert_eq!(parse("listen   ".to_string()), Err(ParseError));
    assert_eq!(parse("Exit".to_string()), Err(ParseError));
    assert_eq!(parse("exits".to_string()), Err(ParseError));
    assert_eq!(parse("connect tcp://h:1".to_string()), Err(ParseError));
    assert_eq!(parse("listening tcp://h:1".to_string()), Err(ParseError));
}

#[test]
fn console_white_space_is_what_std_says() {
    for code in 0..0x11_0000u32 {
        if let Some(c) = char::from_u32(code) {
            assert_eq!(is_white_space(c), c.is_whitespace(), "U+{:04X}", code);
        }
    }
}
