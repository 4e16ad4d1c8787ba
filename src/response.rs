use vstd::prelude::*;

verus! {

/// The envelope of every reply: a status word, a message and an optional payload.
pub struct ApiResponse<T> {
    /// `"success"` or `"error"`.
    pub status: &'static str,
    /// The message associated with the response.
    pub message: String,
    /// The optional data payload of the response.
    pub data: Option<T>,
}

impl<T> ApiResponse<T> {
    /// A success response carrying `message` and `data`.
    pub fn success(message: &str, data: Option<T>) -> (r: Self)
        ensures
            r.status@ == "success"@,
            r.message@ == message@,
            r.data == data,
    {
        ApiResponse { status: "success", message: message.to_owned(), data }
    }

    /// An error response carrying `message` and no data.
    pub fn error(message: &str) -> (r: Self)
        ensures
            r.status@ == "error"@,
            r.message@ == message@,
            r.data is None,
    {
        ApiResponse { status: "error", message: message.to_owned(), data: None }
    }
}

} // verus!
