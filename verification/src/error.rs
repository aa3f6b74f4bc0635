//! Why a proving run fails.
use vstd::prelude::*;

verus! {

/// Why a proving run failed, with the text of the cause.
#[derive(Debug)]
pub enum ZKMCoreProverError {
    /// The program could not be executed.
    ExecutionError(String),
    /// A checkpoint could not be written to disk or read back.
    IoError(String),
    /// A value could not be serialized.
    SerializationError(String),
}

impl ZKMCoreProverError {
    /// What `message` says.
    pub open spec fn spec_message(self) -> Seq<char> {
        match self {
            ZKMCoreProverError::ExecutionError(cause) => "failed to execute program: "@ + cause@,
            ZKMCoreProverError::IoError(cause) => "io error: "@ + cause@,
            ZKMCoreProverError::SerializationError(cause) => "serialization error: "@ + cause@,
        }
    }

    /// The error in words.
    pub fn message(&self) -> (text: String)
        ensures
            text@ == self.spec_message(),
            text@ == match *self {
                ZKMCoreProverError::ExecutionError(cause) => "failed to execute program: "@
                    + cause@,
                ZKMCoreProverError::IoError(cause) => "io error: "@ + cause@,
                ZKMCoreProverError::SerializationError(cause) => "serialization error: "@ + cause@,
            },
    {
        match self {
            ZKMCoreProverError::ExecutionError(cause) => {
                "failed to execute program: ".to_string().concat(cause.as_str())
            },
            ZKMCoreProverError::IoError(cause) => "io error: ".to_string().concat(cause.as_str()),
            ZKMCoreProverError::SerializationError(cause) => {
                "serialization error: ".to_string().concat(cause.as_str())
            },
        }
    }
}

/// A message tells what failed and why: errors with the same message are of the same kind and have
/// the same cause.
pub proof fn law_messages_tell(a: ZKMCoreProverError, b: ZKMCoreProverError)
    ensures
        a.spec_message() == b.spec_message() <==> match (a, b) {
            (
                ZKMCoreProverError::ExecutionError(left),
                ZKMCoreProverError::ExecutionError(right),
            ) => left@ == right@,
            (ZKMCoreProverError::IoError(left), ZKMCoreProverError::IoError(right)) => left@
                == right@,
            (
                ZKMCoreProverError::SerializationError(left),
                ZKMCoreProverError::SerializationError(right),
            ) => left@ == right@,
            _ => false,
        },
{
    reveal_strlit("failed to execute program: ");
    reveal_strlit("io error: ");
    reveal_strlit("serialization error: ");
    lemma_cause(a);
    lemma_cause(b);
    assert(a.spec_message()[0] == b.spec_message()[0] || a.spec_message() != b.spec_message());
}

/// How many characters a message has before its cause.
spec fn prefix_len(error: ZKMCoreProverError) -> int {
    match error {
        ZKMCoreProverError::ExecutionError(_) => 27,
        ZKMCoreProverError::IoError(_) => 10,
        ZKMCoreProverError::SerializationError(_) => 21,
    }
}

proof fn lemma_cause(error: ZKMCoreProverError)
    ensures
        error.spec_message().skip(prefix_len(error)) == match error {
            ZKMCoreProverError::ExecutionError(cause) => cause@,
            ZKMCoreProverError::IoError(cause) => cause@,
            ZKMCoreProverError::SerializationError(cause) => cause@,
        },
{
    reveal_strlit("failed to execute program: ");
    reveal_strlit("io error: ");
    reveal_strlit("serialization error: ");
    match error {
        ZKMCoreProverError::ExecutionError(cause) => {
            assert(error.spec_message().skip(27) =~= cause@);
        },
        ZKMCoreProverError::IoError(cause) => {
            assert(error.spec_message().skip(10) =~= cause@);
        },
        ZKMCoreProverError::SerializationError(cause) => {
            assert(error.spec_message().skip(21) =~= cause@);
        },
    }
}

/// A message starts with what failed and ends with the cause.
pub proof fn law_messages(cause: String)
    ensures
        ZKMCoreProverError::ExecutionError(cause).spec_message().take(27)
            == "failed to execute program: "@,
        ZKMCoreProverError::ExecutionError(cause).spec_message().skip(27) == cause@,
        ZKMCoreProverError::IoError(cause).spec_message().take(10) == "io error: "@,
        ZKMCoreProverError::IoError(cause).spec_message().skip(10) == cause@,
        ZKMCoreProverError::SerializationError(cause).spec_message().take(21)
            == "serialization error: "@,
        ZKMCoreProverError::SerializationError(cause).spec_message().skip(21) == cause@,
{
    reveal_strlit("failed to execute program: ");
    reveal_strlit("io error: ");
    reveal_strlit("serialization error: ");
    lemma_cause(ZKMCoreProverError::ExecutionError(cause));
    lemma_cause(ZKMCoreProverError::IoError(cause));
    lemma_cause(ZKMCoreProverError::SerializationError(cause));
    assert(ZKMCoreProverError::ExecutionError(cause).spec_message().take(27)
        =~= "failed to execute program: "@);
    assert(ZKMCoreProverError::IoError(cause).spec_message().take(10) =~= "io error: "@);
    assert(ZKMCoreProverError::SerializationError(cause).spec_message().take(21)
        =~= "serialization error: "@);
}

} // verus!
