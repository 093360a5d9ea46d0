//! Boilerplate generation for a fresh solution file. The problem's I/O
//! modes drive the wiring: a file-mode problem gets its standard streams
//! redirected to the named files, a stdio-mode problem needs nothing.

use crate::preferences::Language;
use crate::problem::IoMode;
use vstd::prelude::*;

verus! {

/// The C++ line redirecting standard input, when the problem reads a
/// named file.
pub open spec fn cpp_stdin_line(input: &IoMode) -> Seq<char> {
    match input {
        IoMode::Stdio => Seq::empty(),
        IoMode::File(name) => "  freopen(\""@ + name@ + "\", \"r\", stdin);\n"@,
    }
}

/// The C++ line redirecting standard output, when the problem writes a
/// named file.
pub open spec fn cpp_stdout_line(output: &IoMode) -> Seq<char> {
    match output {
        IoMode::Stdio => Seq::empty(),
        IoMode::File(name) => "  freopen(\""@ + name@ + "\", \"w\", stdout);\n"@,
    }
}

/// The Python line redirecting standard input.
pub open spec fn py_stdin_line(input: &IoMode) -> Seq<char> {
    match input {
        IoMode::Stdio => Seq::empty(),
        IoMode::File(name) => "sys.stdin = open(\""@ + name@ + "\", \"r\")\n"@,
    }
}

/// The Python line redirecting standard output.
pub open spec fn py_stdout_line(output: &IoMode) -> Seq<char> {
    match output {
        IoMode::Stdio => Seq::empty(),
        IoMode::File(name) => "sys.stdout = open(\""@ + name@ + "\", \"w\")\n"@,
    }
}

/// The whole boilerplate file for a language and a problem's I/O modes.
pub open spec fn scaffold_code(lang: Language, input: &IoMode, output: &IoMode) -> Seq<char> {
    match lang {
        Language::CPP => "#include <bits/stdc++.h>\nusing namespace std;\n\nint main() {\n  ios::sync_with_stdio(false);\n  cin.tie(nullptr);\n"@
            + cpp_stdin_line(input) + cpp_stdout_line(output) + "\n  \n  return 0;\n}"@,
        Language::Python => "import sys\n\n"@ + py_stdin_line(input) + py_stdout_line(output)
            + "\n\n"@,
    }
}

/// Build the boilerplate text for a fresh solution file.
pub fn boilerplate(lang: Language, input: &IoMode, output: &IoMode) -> (r: String)
    ensures
        r@ == scaffold_code(lang, input, output),
{
    match lang {
        Language::CPP => {
            let mut code = String::from_str(
                "#include <bits/stdc++.h>\nusing namespace std;\n\nint main() {\n  ios::sync_with_stdio(false);\n  cin.tie(nullptr);\n",
            );
            if let IoMode::File(name) = input {
                code.append("  freopen(\"");
                code.append(name.as_str());
                code.append("\", \"r\", stdin);\n");
            }
            if let IoMode::File(name) = output {
                code.append("  freopen(\"");
                code.append(name.as_str());
                code.append("\", \"w\", stdout);\n");
            }
            code.append("\n  \n  return 0;\n}");
            code
        },
        Language::Python => {
            let mut code = String::from_str("import sys\n\n");
            if let IoMode::File(name) = input {
                code.append("sys.stdin = open(\"");
                code.append(name.as_str());
                code.append("\", \"r\")\n");
            }
            if let IoMode::File(name) = output {
                code.append("sys.stdout = open(\"");
                code.append(name.as_str());
                code.append("\", \"w\")\n");
            }
            code.append("\n\n");
            code
        },
    }
}

} // verus!
