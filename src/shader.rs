use vstd::prelude::*;

verus! {

#[verifier::external_type_specification]
#[verifier::external_body]
pub struct ExIoError(std::io::Error);

/// Why a shader's source could not be turned into device bytecode.
#[derive(Debug)]
pub enum ShaderCompilationError {
    /// The compiler could not be created.
    NullCompiler,
    /// The compile options could not be created.
    NullOptions,
    /// The source was rejected, with the compiler's message.
    CompileFailed(String),
    /// The source file could not be read.
    FileError(std::io::Error),
}

impl From<std::io::Error> for ShaderCompilationError {
    fn from(err: std::io::Error) -> (r: Self)
        ensures
            r is FileError,
    {
        ShaderCompilationError::FileError(err)
    }
}

impl vstd::std_specs::convert::FromSpecImpl<std::io::Error> for ShaderCompilationError {
    open spec fn obeys_from_spec() -> bool {
        true
    }

    open spec fn from_spec(v: std::io::Error) -> Self {
        ShaderCompilationError::FileError(v)
    }
}

} // verus!
