use vstd::prelude::*;

verus! {

/// The errors that executing bytecode can raise.
#[derive(Debug)]
pub enum JvmError {
    ArithmeticError(String),
    NullPointerError(String),
    ClassNotFoundError(String),
    NoSuchMethodError(String),
    IllegalStateError(String),
    StackOverflowError(String),
    OutOfMemoryError(String),
    Unimplemented(String),
}

impl JvmError {
    /// The text that names the kind of an error.
    pub open spec fn kind_text(&self) -> Seq<char> {
        match self {
            JvmError::ArithmeticError(_) => "ArithmeticError"@,
            JvmError::NullPointerError(_) => "NullPointerError"@,
            JvmError::ClassNotFoundError(_) => "ClassNotFoundError"@,
            JvmError::NoSuchMethodError(_) => "NoSuchMethodError"@,
            JvmError::IllegalStateError(_) => "IllegalStateError"@,
            JvmError::StackOverflowError(_) => "StackOverflowError"@,
            JvmError::OutOfMemoryError(_) => "OutOfMemoryError"@,
            JvmError::Unimplemented(_) => "Unimplemented"@,
        }
    }

    /// The message an error carries.
    pub open spec fn message(&self) -> Seq<char> {
        match self {
            JvmError::ArithmeticError(m) => m@,
            JvmError::NullPointerError(m) => m@,
            JvmError::ClassNotFoundError(m) => m@,
            JvmError::NoSuchMethodError(m) => m@,
            JvmError::IllegalStateError(m) => m@,
            JvmError::StackOverflowError(m) => m@,
            JvmError::OutOfMemoryError(m) => m@,
            JvmError::Unimplemented(m) => m@,
        }
    }

    /// The human-readable form of an error: its kind, a colon, a space and its message.
    pub fn to_text(&self) -> (s: String)
        ensures
            s@ == self.kind_text() + ": "@ + self.message(),
    {
        let (kind, msg): (&str, &String) = match self {
            JvmError::ArithmeticError(m) => ("ArithmeticError: ", m),
            JvmError::NullPointerError(m) => ("NullPointerError: ", m),
            JvmError::ClassNotFoundError(m) => ("ClassNotFoundError: ", m),
            JvmError::NoSuchMethodError(m) => ("NoSuchMethodError: ", m),
            JvmError::IllegalStateError(m) => ("IllegalStateError: ", m),
            JvmError::StackOverflowError(m) => ("StackOverflowError: ", m),
            JvmError::OutOfMemoryError(m) => ("OutOfMemoryError: ", m),
            JvmError::Unimplemented(m) => ("Unimplemented: ", m),
        };
        proof {
            reveal_strlit("ArithmeticError: ");
            reveal_strlit("NullPointerError: ");
            reveal_strlit("ClassNotFoundError: ");
            reveal_strlit("NoSuchMethodError: ");
            reveal_strlit("IllegalStateError: ");
            reveal_strlit("StackOverflowError: ");
            reveal_strlit("OutOfMemoryError: ");
            reveal_strlit("Unimplemented: ");
            reveal_strlit("ArithmeticError");
            reveal_strlit("NullPointerError");
            reveal_strlit("ClassNotFoundError");
            reveal_strlit("NoSuchMethodError");
            reveal_strlit("IllegalStateError");
            reveal_strlit("StackOverflowError");
            reveal_strlit("OutOfMemoryError");
            reveal_strlit("Unimplemented");
            reveal_strlit(": ");
        }
        let mut s = String::from_str(kind);
        s.append(msg.as_str());
        assert(s@ =~= self.kind_text() + ": "@ + self.message());
        s
    }
}

} // verus!
