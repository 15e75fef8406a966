use flipvm::pp::{DefineMacro, Error, PreProcessor};

fn pp() -> PreProcessor<DefineMacro> {
    PreProcessor::new()
}

#[test]
fn comment_lines_are_returned_unchanged() {
    let mut p = pp();
    let line = "; mov A  B   untouched !var .macro";
    assert_eq!(p.resolve(line).unwrap(), line);
}

#[test]
fn plain_lines_are_returned_unchanged() {
    let mut p = pp();
    let line = "Imm A 42";
    assert_eq!(p.resolve(line).unwrap(), line);
}

#[test]
fn variables_are_substituted() {
    let mut p = pp();
    p.define_variable("target", "10");
    p.define_variable("reg", "A");
    assert_eq!(p.resolve("Imm !reg !target").unwrap(), "Imm A 10");
}

#[test]
fn redefining_a_variable_takes_effect() {
    let mut p = pp();
    p.define_variable("x", "1");
    p.define_variable("x", "2");
    assert_eq!(p.resolve("!x").unwrap(), "2");
}

#[test]
fn unknown_variable_is_an_error() {
    let mut p = pp();
    match p.resolve("Imm !missing 3") {
        Err(Error::UnknownToken(name)) => assert_eq!(name, "missing"),
        _ => panic!("expected an unknown-token error"),
    }
}

#[test]
fn unknown_macro_is_an_error() {
    let mut p = pp();
    match p.resolve(".nosuch a b") {
        Err(Error::UnknownMacro(_)) => (),
        _ => panic!("expected an unknown-macro error"),
    }
}

#[test]
fn define_macro_records_a_variable() {
    let mut p = pp();
    p.define_macro("def", DefineMacro);
    assert_eq!(p.resolve(".def answer 42").unwrap(), "");
    assert_eq!(p.resolve("Imm A !answer").unwrap(), "Imm A 42");
}

#[test]
fn malformed_macro_input_is_reported() {
    let mut p = pp();
    p.define_macro("def", DefineMacro);
    match p.resolve(".def onlyname") {
        Err(Error::MacroEval(name, inner)) => {
            assert_eq!(name, "def");
            assert!(matches!(*inner, Error::BadMacroFormat));
        },
        _ => panic!("expected a macro-eval error"),
    }
}

#[test]
fn redefining_a_macro_keeps_the_latest() {
    let mut p = pp();
    p.define_macro("def", DefineMacro);
    p.define_macro("def", DefineMacro);
    assert_eq!(p.resolve(".def k v").unwrap(), "");
    assert_eq!(p.resolve("!k").unwrap(), "v");
}
