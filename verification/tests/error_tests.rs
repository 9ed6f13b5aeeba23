use brainfart::error::{CliError, CliErrors};

#[test]
fn a_cli_error_keeps_its_message() {
    let error = CliError::new(String::from("there is no such file"));
    assert_eq!(error.into_message(), "there is no such file");
}

#[test]
fn cli_errors_collect_in_order() {
    let mut errors = CliErrors::new();
    errors.push(CliError::new(String::from("first")));
    errors.push(CliError::new(String::from("second")));
    let messages: Vec<String> = errors.into_inner().into_iter().map(|e| e.into_message()).collect();
    assert_eq!(messages, vec![String::from("first"), String::from("second")]);
}

#[test]
fn a_fresh_collection_is_empty() {
    let errors = CliErrors::new();
    assert_eq!(errors.into_inner().len(), 0);
}
