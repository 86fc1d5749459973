use depotd::adapters::typesafe::{
    check_answer_shape, chosen_condition, dispatch_refused, key_from_file, NO_MATCH,
};
use depotd::error::Error;

fn conditions() -> Vec<String> {
    vec!["touches the API".to_string(), "docs only".to_string(), "touches the API".to_string()]
}

#[test]
fn the_choice_names_a_condition_or_none() {
    assert_eq!(chosen_condition(NO_MATCH, &conditions()), Ok(None));
    assert_eq!(chosen_condition("docs only", &conditions()), Ok(Some(1)));
    assert_eq!(chosen_condition("touches the API", &conditions()), Ok(Some(0)));
    assert_eq!(
        chosen_condition("something else", &conditions()),
        Err(Error::Config("Typesafe dispatch refused: unknown choice; supply --role to override".to_string()))
    );
}

#[test]
fn an_answer_must_be_a_choice_with_a_model() {
    assert_eq!(check_answer_shape("choice", "m-1"), Ok(()));
    assert_eq!(
        check_answer_shape("rank", "m-1"),
        Err(dispatch_refused("malformed choice or missing model version"))
    );
    assert!(check_answer_shape("choice", "  ").is_err());
}

#[test]
fn the_key_file_must_hold_a_key() {
    assert_eq!(key_from_file("/h/typesafe-key", " k-123\n"), Ok("k-123".to_string()));
    assert_eq!(
        key_from_file("/h/typesafe-key", "\n"),
        Err(Error::Config("Typesafe dispatch refused: key file /h/typesafe-key is empty; supply --role to override".to_string()))
    );
}
