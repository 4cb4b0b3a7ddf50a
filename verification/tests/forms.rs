use platform_rs::forms::{Validateable, ValidationError};

#[derive(Debug)]
struct TestForm {
    first: String,
    second: String,
}

impl Validateable for TestForm {
    fn validate(&self) -> Result<&Self, ValidationError> {
        if self.first == self.second {
            Ok(self)
        } else {
            Err(ValidationError::Generic(
                "First & second should be equal!".to_string(),
            ))
        }
    }
}

struct PlainForm;

impl Validateable for PlainForm {}

#[test]
fn test_forms_should_return_ok_if_valid() {
    let form = TestForm {
        first: String::from("a"),
        second: String::from("a"),
    };

    let is_ok_with_form_data = form
        .validate()
        .is_ok_and(|form| form.first == String::from("a"));

    assert_eq!(is_ok_with_form_data, true)
}

#[test]
fn test_forms_should_return_err_if_validation_error_happens() {
    let form = TestForm {
        first: String::from("a"),
        second: String::from("b"),
    };

    form.validate().expect_err("Expected error, got OK");

    assert_eq!(form.validate().is_ok(), false)
}

#[test]
fn a_form_is_valid_unless_it_says_otherwise() {
    assert!(PlainForm.validate().is_ok());
}

#[test]
fn validation_error_message() {
    let error = ValidationError::Generic("names differ".to_string());
    assert_eq!(error.message(), "Validation Error: names differ");
}
