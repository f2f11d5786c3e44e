use vstd::prelude::*;

verus! {

/// Error returned by the extractor, carrying a human-readable message.
#[derive(Debug)]
pub struct StringerError {
    msg: String,
}

impl View for StringerError {
    type V = Seq<char>;

    closed spec fn view(&self) -> Seq<char> {
        self.msg@
    }
}

impl Default for StringerError {
    /// The generic error, whose message is `StringerError {}`.
    fn default() -> (r: Self)
        ensures
            r@ == "StringerError {}"@,
    {
        StringerError { msg: "StringerError {}".to_owned() }
    }
}

impl StringerError {
    /// Creates an error with the given message.
    pub fn new(msg: String) -> (r: StringerError)
        ensures
            r@ == msg@,
    {
        Self { msg }
    }

    /// The message this error carries.
    pub fn message(&self) -> (r: &str)
        ensures
            r@ == self@,
    {
        self.msg.as_str()
    }
}

} // verus!
