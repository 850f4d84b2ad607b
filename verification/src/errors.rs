//! The per-file extraction error: the converter's own message and the
//! diagnostics of the external process it ran.  Extraction failure is
//! recoverable — the file is skipped, the error printed, and the batch goes
//! on — so this error carries everything needed to report it.

use vstd::prelude::*;
use vstd::string::StringExecFns;

verus! {

/// A structured extraction failure, distinguished from generic I/O errors:
/// both fields are printed to the error stream, newline-separated.
#[derive(Clone, PartialEq, Eq, Debug)]
pub struct ExtractionError {
    pub message: String,
    pub process_message: String,
}

impl ExtractionError {
    /// The error as printed: the message, a newline, and the external
    /// process's diagnostics.
    pub fn error_text(&self) -> (r: String)
        ensures
            r@ == self.message@ + "\n"@ + self.process_message@,
    {
        let mut s = self.message.clone();
        s.append("\n");
        s.append(self.process_message.as_str());
        proof {
            assert(s@ =~= self.message@ + "\n"@ + self.process_message@);
        }
        s
    }
}

} // verus!
