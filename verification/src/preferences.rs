//! User preferences: the toolchain choices, the current problem and the
//! solutions directory, together with the keys used to read and set them.
//! Loading and saving the preferences file is the caller's concern; the
//! values here are plain data.

use vstd::prelude::*;

verus! {

/// Preferred C++ compiler.
#[derive(Debug, Copy, Clone, PartialEq, Eq, PartialOrd, Ord, Hash, Structural)]
pub enum CPPCompiler {
    GCC,
    Clang,
}

impl Default for CPPCompiler {
    fn default() -> (r: Self)
        ensures
            r == CPPCompiler::GCC,
    {
        CPPCompiler::GCC
    }
}

/// Preferred language for boilerplate code.
#[derive(Debug, Copy, Clone, PartialEq, Eq, PartialOrd, Ord, Hash, Structural)]
pub enum Language {
    CPP,
    Python,
}

impl Default for Language {
    fn default() -> (r: Self)
        ensures
            r == Language::CPP,
    {
        Language::CPP
    }
}

/// The file extension a language's solution files carry.
pub open spec fn lang_ext(lang: Language) -> Seq<char> {
    match lang {
        Language::CPP => "cpp"@,
        Language::Python => "python"@,
    }
}

impl Language {
    /// The extension used for this language's solution files.
    pub fn to_str(&self) -> (r: &'static str)
        ensures
            r@ == lang_ext(*self),
    {
        match self {
            Language::CPP => "cpp",
            Language::Python => "python",
        }
    }
}

/// The preferences read once per invocation and fixed for its duration.
#[derive(Debug)]
pub struct Preferences {
    /// default problem id for problem and solution commands
    pub current_problem: Option<u64>,
    pub cpp_compiler: CPPCompiler,
    pub preferred_language: Language,
    /// directory holding the solutions tree
    pub solutions_dir: Option<String>,
}

impl Default for Preferences {
    fn default() -> (r: Self)
        ensures
            r.current_problem is None,
            r.cpp_compiler == CPPCompiler::GCC,
            r.preferred_language == Language::CPP,
            r.solutions_dir is None,
    {
        Preferences {
            current_problem: None,
            cpp_compiler: CPPCompiler::GCC,
            preferred_language: Language::CPP,
            solutions_dir: None,
        }
    }
}

/// A preference key, for reading a single value.
#[derive(Debug, Clone, Copy, PartialEq, Eq, PartialOrd, Ord, Structural)]
pub enum PrefKey {
    /// default problem id for problem and solution commands
    CurrentProblem,
    /// preferred language for boilerplate code
    PreferredLanguage,
    /// preferred C++ compiler
    CPPCompiler,
    /// directory to hold solutions in
    SolutionsDirectory,
}

/// A preference assignment. A `None` value asks the caller to prompt for
/// one before applying.
#[derive(Debug)]
pub enum SetValues {
    /// default problem id for problem and solution commands
    CurrentProblem { value: Option<u64> },
    /// preferred language for boilerplate code
    PreferredLanguage { value: Option<Language> },
    /// preferred C++ compiler
    CPPCompiler { value: Option<CPPCompiler> },
    /// directory to hold solutions in
    SolutionsDirectory { value: Option<String> },
}

impl Preferences {
    /// Apply an assignment whose value has been resolved. Exactly the
    /// addressed field changes.
    pub fn apply_set(&mut self, change: &SetValues)
        requires
            match *change {
                SetValues::CurrentProblem { value } => value is Some,
                SetValues::PreferredLanguage { value } => value is Some,
                SetValues::CPPCompiler { value } => value is Some,
                SetValues::SolutionsDirectory { value } => value is Some,
            },
        ensures
            ({
                let before = *old(self);
                let after = *final(self);
                match *change {
                    SetValues::CurrentProblem { value } => after.current_problem == value
                        && after.cpp_compiler == before.cpp_compiler && after.preferred_language
                        == before.preferred_language && after.solutions_dir
                        == before.solutions_dir,
                    SetValues::PreferredLanguage { value } => after.preferred_language
                        == value.unwrap() && after.current_problem == before.current_problem
                        && after.cpp_compiler == before.cpp_compiler && after.solutions_dir
                        == before.solutions_dir,
                    SetValues::CPPCompiler { value } => after.cpp_compiler == value.unwrap()
                        && after.current_problem == before.current_problem
                        && after.preferred_language == before.preferred_language
                        && after.solutions_dir == before.solutions_dir,
                    SetValues::SolutionsDirectory { value } => (after.solutions_dir matches Some(d)
                        && d@ == value.unwrap()@) && after.current_problem
                        == before.current_problem && after.cpp_compiler == before.cpp_compiler
                        && after.preferred_language == before.preferred_language,
                }
            }),
    {
        match change {
            SetValues::CurrentProblem { value: Some(v) } => {
                self.current_problem = Some(*v);
            },
            SetValues::PreferredLanguage { value: Some(v) } => {
                self.preferred_language = *v;
            },
            SetValues::CPPCompiler { value: Some(v) } => {
                self.cpp_compiler = *v;
            },
            SetValues::SolutionsDirectory { value: Some(v) } => {
                self.solutions_dir = Some(v.clone());
            },
            _ => {
                proof {
                    assert(false);
                }
            },
        }
    }
}

} // verus!
