use vstd::prelude::*;

use crate::hir::errors::SemanticError;

verus! {

/// What stopped a compilation. Errors of the file system come as their text.
pub enum CompilationError {
    CouldNotReadFile { path: String, error: String },
    ModuleNotFound { importing_module: String, target_path: String, error: String },
    Semantic { path: String, errors: Vec<SemanticError> },
}

/// The line printed for an error of the file system; semantic errors are
/// reported one by one instead.
pub open spec fn compilation_message(e: CompilationError) -> Option<Seq<char>> {
    match e {
        CompilationError::CouldNotReadFile { path, error } => Some(
            "Could not read file at path \""@ + path@ + "\", error "@ + error@,
        ),
        CompilationError::ModuleNotFound { importing_module, target_path, error } => Some(
            "Module not found \""@ + target_path@ + "\", imported from \""@ + importing_module@
                + "\", error: "@ + error@,
        ),
        CompilationError::Semantic { .. } => None,
    }
}

impl CompilationError {
    /// The line printed for an error of the file system.
    pub fn message(&self) -> (r: Option<String>)
        ensures
            match (r, compilation_message(*self)) {
                (Some(text), Some(expected)) => text@ == expected,
                (None, None) => true,
                _ => false,
            },
    {
        match self {
            CompilationError::CouldNotReadFile { path, error } => {
                let mut out = String::from_str("Could not read file at path \"");
                out.append(path.as_str());
                out.append("\", error ");
                out.append(error.as_str());
                Some(out)
            },
            CompilationError::ModuleNotFound { importing_module, target_path, error } => {
                let mut out = String::from_str("Module not found \"");
                out.append(target_path.as_str());
                out.append("\", imported from \"");
                out.append(importing_module.as_str());
                out.append("\", error: ");
                out.append(error.as_str());
                Some(out)
            },
            CompilationError::Semantic { .. } => None,
        }
    }
}

} // verus!
