use vstd::prelude::*;

verus! {

/// Why a form is not valid.
#[derive(Debug)]
pub enum ValidationError {
    Generic(String),
}

impl ValidationError {
    /// The text shown for the error.
    pub fn message(&self) -> (text: String)
        ensures
            text@ == "Validation Error: "@ + match self {
                ValidationError::Generic(reason) => reason@,
            },
    {
        match self {
            ValidationError::Generic(reason) => {
                let mut text = "Validation Error: ".to_owned();
                text.append(reason.as_str());
                text
            },
        }
    }
}

/// A form that can check its own fields. Unless a form says otherwise, it
/// is valid as it is.
pub trait Validateable: Sized {
    fn validate(&self) -> (checked: Result<&Self, ValidationError>)
        default_ensures
            checked matches Ok(form) && form == self,
    {
        Ok(self)
    }
}

} // verus!
