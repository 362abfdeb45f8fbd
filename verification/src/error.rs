use vstd::prelude::*;

verus! {

/// A flat, stringly-typed editor error: a code and optional details.
#[derive(Debug, Clone)]
pub struct Error {
    pub code: String,
    pub details: Option<String>,
}

impl Error {
    pub fn new(code: &str) -> (r: Error)
        ensures
            r.code@ == code@,
            r.details is None,
    {
        Error { code: String::from_str(code), details: None }
    }

    pub fn new_with_details(code: &str, details: &str) -> (r: Error)
        ensures
            r.code@ == code@,
            r.details matches Some(d) && d@ == details@,
    {
        Error { code: String::from_str(code), details: Some(String::from_str(details)) }
    }

    /// The fixed popup title under which an error is shown.
    pub fn title(&self) -> (r: &'static str)
        ensures
            r@ == "Error"@,
    {
        "Error"
    }

    /// The rendered form: `code -> details`, with `/` when there are none.
    pub open spec fn spec_display(self) -> Seq<char> {
        match self.details {
            Some(d) => self.code@ + " -> "@ + d@,
            None => self.code@ + " -> /"@,
        }
    }

    pub fn display(&self) -> (r: String)
        ensures
            r@ == self.spec_display(),
    {
        let mut s = self.code.clone();
        match &self.details {
            Some(d) => {
                s.append(" -> ");
                s.append(d.as_str());
            }
            None => {
                s.append(" -> /");
            }
        }
        s
    }
}

/// The result type used through the editor's service layer.
pub type EResult<T> = Result<T, Error>;

} // verus!
