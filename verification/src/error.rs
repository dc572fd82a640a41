use vstd::prelude::*;

verus! {

/// An error as a client sees it: a code, a status and a message.
#[derive(Debug)]
pub struct Error {
    pub code: String,
    pub status: u16,
    pub message: String,
}

impl Default for Error {
    #[inline]
    fn default() -> (res: Self)
        ensures
            res.code@ == "UNKNOWN"@,
            res.status == 500,
            res.message@ == "Unknown error has happened."@,
    {
        Error {
            code: "UNKNOWN".to_owned(),
            status: 500,
            message: "Unknown error has happened.".to_owned(),
        }
    }
}

impl Error {
    /// The default error under the code `code`.
    pub fn new(code: &str) -> (res: Self)
        ensures
            res.code@ == code@,
            res.status == 500,
            res.message@ == "Unknown error has happened."@,
    {
        let mut err = Self::default();
        err.code = code.to_owned();
        err
    }

    /// Sets the status and hands the error back for the next setting.
    pub fn status(&mut self, s: u16) -> (res: &mut Self)
        ensures
            res.status == s,
            res.code == old(self).code,
            res.message == old(self).message,
            *final(self) == *final(res),
    {
        self.status = s;
        self
    }

    /// Sets the message and hands the error back for the next setting.
    pub fn message(&mut self, m: &str) -> (res: &mut Self)
        ensures
            res.message@ == m@,
            res.code == old(self).code,
            res.status == old(self).status,
            *final(self) == *final(res),
    {
        self.message = m.to_owned();
        self
    }
}

} // verus!
