use pngme::args::{parse_args, ArgError, Commands};

fn strings(words: &[&str]) -> Vec<String> {
    words.iter().map(|w| w.to_string()).collect()
}

#[test]
fn test_parse_args_encode() {
    let args = strings(&["encode", "-f", "image.png", "-c", "ruSt", "-m", "hello there"]);
    let parsed = parse_args(&args).unwrap();
    match parsed.command {
        Commands::Encode { file, chunk_type, message, output } => {
            assert_eq!(file, "image.png");
            assert_eq!(chunk_type, "ruSt");
            assert_eq!(message, "hello there");
            assert!(output.is_none());
        }
        _ => panic!("wrong command"),
    }
}

#[test]
fn test_parse_args_encode_with_output() {
    let args = strings(&[
        "encode", "--file", "in.png", "--chunk-type", "ruSt", "--message", "msg", "--output",
        "out.png",
    ]);
    let parsed = parse_args(&args).unwrap();
    match parsed.command {
        Commands::Encode { output, .. } => assert_eq!(output.unwrap(), "out.png"),
        _ => panic!("wrong command"),
    }
}

#[test]
fn test_parse_args_decode() {
    let args = strings(&["decode", "-f", "image.png", "-c", "ruSt"]);
    let parsed = parse_args(&args).unwrap();
    match parsed.command {
        Commands::Decode { file, chunk_type } => {
            assert_eq!(file, "image.png");
            assert_eq!(chunk_type, "ruSt");
        }
        _ => panic!("wrong command"),
    }
}

#[test]
fn test_parse_args_remove() {
    let args = strings(&["remove", "--file", "image.png", "--chunk-type", "ruSt"]);
    let parsed = parse_args(&args).unwrap();
    match parsed.command {
        Commands::Remove { file, chunk_type } => {
            assert_eq!(file, "image.png");
            assert_eq!(chunk_type, "ruSt");
        }
        _ => panic!("wrong command"),
    }
}

#[test]
fn test_parse_args_print() {
    let args = strings(&["print", "-f", "image.png"]);
    let parsed = parse_args(&args).unwrap();
    match parsed.command {
        Commands::Print { file } => assert_eq!(file, "image.png"),
        _ => panic!("wrong command"),
    }
}

#[test]
fn test_parse_args_errors() {
    assert_eq!(parse_args(&strings(&[])).unwrap_err(), ArgError::MissingCommand);
    assert_eq!(parse_args(&strings(&["explode"])).unwrap_err(), ArgError::UnknownCommand);
    assert_eq!(
        parse_args(&strings(&["print", "-x", "y"])).unwrap_err(),
        ArgError::UnknownFlag
    );
    assert_eq!(parse_args(&strings(&["print", "-f"])).unwrap_err(), ArgError::MissingValue);
    assert_eq!(
        parse_args(&strings(&["print", "-f", "a", "-f", "b"])).unwrap_err(),
        ArgError::DuplicateFlag
    );
    assert_eq!(parse_args(&strings(&["decode", "-f", "a"])).unwrap_err(), ArgError::MissingFlag);
    assert_eq!(
        parse_args(&strings(&["print", "-f", "a", "-m", "msg"])).unwrap_err(),
        ArgError::UnexpectedFlag
    );
}
