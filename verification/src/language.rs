//! The language that a file is taken to be written in.

use crate::text::same_text;
use vstd::prelude::*;

verus! {

/// The name of the language for a file name extension, given without its dot.
/// Extensions are told apart by case, and every extension that is not known
/// stands for plain text.
pub open spec fn language_name(extension: Seq<char>) -> Seq<char> {
    if extension == "js"@ {
        "javascript"@
    } else if extension == "ts"@ {
        "typescript"@
    } else if extension == "py"@ {
        "python"@
    } else if extension == "rs"@ {
        "rust"@
    } else if extension == "go"@ {
        "go"@
    } else if extension == "java"@ {
        "java"@
    } else if extension == "cpp"@ {
        "c++"@
    } else if extension == "cc"@ {
        "c++"@
    } else if extension == "cxx"@ {
        "c++"@
    } else if extension == "c"@ {
        "c"@
    } else if extension == "cs"@ {
        "c#"@
    } else if extension == "php"@ {
        "php"@
    } else if extension == "rb"@ {
        "ruby"@
    } else if extension == "swift"@ {
        "swift"@
    } else if extension == "kt"@ {
        "kotlin"@
    } else if extension == "kts"@ {
        "kotlin"@
    } else if extension == "scala"@ {
        "scala"@
    } else if extension == "hs"@ {
        "haskell"@
    } else if extension == "lua"@ {
        "lua"@
    } else if extension == "pl"@ {
        "perl"@
    } else if extension == "r"@ {
        "r"@
    } else if extension == "sh"@ {
        "shell"@
    } else if extension == "sql"@ {
        "sql"@
    } else if extension == "html"@ {
        "html"@
    } else if extension == "css"@ {
        "css"@
    } else if extension == "md"@ {
        "markdown"@
    } else if extension == "markdown"@ {
        "markdown"@
    } else if extension == "json"@ {
        "json"@
    } else if extension == "xml"@ {
        "xml"@
    } else if extension == "yaml"@ {
        "yaml"@
    } else if extension == "yml"@ {
        "yaml"@
    } else {
        "plaintext"@
    }
}

/// The name of the language for a file name extension, given without its dot.
pub fn language_for_extension(extension: &str) -> (language: &'static str)
    ensures
        language@ == language_name(extension@),
{
    if same_text(extension, "js") {
        "javascript"
    } else if same_text(extension, "ts") {
        "typescript"
    } else if same_text(extension, "py") {
        "python"
    } else if same_text(extension, "rs") {
        "rust"
    } else if same_text(extension, "go") {
        "go"
    } else if same_text(extension, "java") {
        "java"
    } else if same_text(extension, "cpp") {
        "c++"
    } else if same_text(extension, "cc") {
        "c++"
    } else if same_text(extension, "cxx") {
        "c++"
    } else if same_text(extension, "c") {
        "c"
    } else if same_text(extension, "cs") {
        "c#"
    } else if same_text(extension, "php") {
        "php"
    } else if same_text(extension, "rb") {
        "ruby"
    } else if same_text(extension, "swift") {
        "swift"
    } else if same_text(extension, "kt") {
        "kotlin"
    } else if same_text(extension, "kts") {
        "kotlin"
    } else if same_text(extension, "scala") {
        "scala"
    } else if same_text(extension, "hs") {
        "haskell"
    } else if same_text(extension, "lua") {
        "lua"
    } else if same_text(extension, "pl") {
        "perl"
    } else if same_text(extension, "r") {
        "r"
    } else if same_text(extension, "sh") {
        "shell"
    } else if same_text(extension, "sql") {
        "sql"
    } else if same_text(extension, "html") {
        "html"
    } else if same_text(extension, "css") {
        "css"
    } else if same_text(extension, "md") {
        "markdown"
    } else if same_text(extension, "markdown") {
        "markdown"
    } else if same_text(extension, "json") {
        "json"
    } else if same_text(extension, "xml") {
        "xml"
    } else if same_text(extension, "yaml") {
        "yaml"
    } else if same_text(extension, "yml") {
        "yaml"
    } else {
        "plaintext"
    }
}

/// `Path::extension` of the standard library: the part of the path's file name
/// after its last dot, where the file name has a dot that is not its first
/// character. Which part of a path is its file name differs between
/// platforms, so nothing is claimed of the result.
#[verifier::external_body]
fn file_extension(file_path: &str) -> (extension: Option<String>) {
    std::path::Path::new(file_path).extension().and_then(|e| e.to_str()).map(|e| e.to_owned())
}

/// The name of the language that the file at `file_path` is taken to be
/// written in: the language for the extension of its file name, or for the
/// empty extension where it has none.
pub fn get_file_language(file_path: &str) -> (language: &'static str)
    ensures
        exists|extension: Seq<char>| language@ == language_name(extension),
{
    match file_extension(file_path) {
        Some(extension) => language_for_extension(extension.as_str()),
        None => language_for_extension(""),
    }
}

} // verus!
