//! The destination's fixed enumeration of code-block languages. A code
//! block's declared language is matched case-insensitively against this
//! list; anything else degrades to plain text.

use vstd::prelude::*;

use crate::external::{lower_of, lowercase};
use crate::text::str_eq;

verus! {

/// The destination's supported language names, in canonical form.
pub open spec fn supported_languages() -> Seq<Seq<char>> {
    seq![
        "abap"@, "arduino"@, "bash"@, "basic"@, "c"@, "clojure"@, "coffeescript"@, "c++"@,
        "c#"@, "css"@, "dart"@, "diff"@, "docker"@, "elixir"@, "elm"@, "erlang"@, "flow"@,
        "fortran"@, "f#"@, "gherkin"@, "glsl"@, "go"@, "graphql"@, "groovy"@, "haskell"@,
        "html"@, "java"@, "javascript"@, "json"@, "julia"@, "kotlin"@, "latex"@, "less"@,
        "lisp"@, "livescript"@, "lua"@, "makefile"@, "markdown"@, "markup"@, "matlab"@,
        "mermaid"@, "nix"@, "objective-c"@, "ocaml"@, "pascal"@, "perl"@, "php"@,
        "plain text"@, "powershell"@, "prolog"@, "protobuf"@, "python"@, "r"@, "reason"@,
        "ruby"@, "rust"@, "sass"@, "scala"@, "scheme"@, "scss"@, "shell"@, "sql"@, "swift"@,
        "typescript"@, "vb.net"@, "verilog"@, "vhdl"@, "visual basic"@, "webassembly"@, "xml"@,
        "yaml"@,
    ]
}

/// The canonical language of a code block: a declared language is
/// lowercased and must be in the supported list, and an undeclared or
/// unsupported one becomes plain text.
pub open spec fn spec_language_of(lang: Option<Seq<char>>) -> Seq<char> {
    match lang {
        Option::None => "plain text"@,
        Option::Some(s) => if supported_languages().contains(lower_of(s)) {
            lower_of(s)
        } else {
            "plain text"@
        },
    }
}

/// The supported language names as executable strings, in the order of
/// `supported_languages`.
fn supported_list() -> (r: Vec<&'static str>)
    ensures
        r@.len() == supported_languages().len(),
        forall|i: int| 0 <= i < r@.len() ==> (#[trigger] r@[i])@ == supported_languages()[i],
{
    let mut v: Vec<&'static str> = Vec::new();
    v.push("abap");
    v.push("arduino");
    v.push("bash");
    v.push("basic");
    v.push("c");
    v.push("clojure");
    v.push("coffeescript");
    v.push("c++");
    v.push("c#");
    v.push("css");
    v.push("dart");
    v.push("diff");
    v.push("docker");
    v.push("elixir");
    v.push("elm");
    v.push("erlang");
    v.push("flow");
    v.push("fortran");
    v.push("f#");
    v.push("gherkin");
    v.push("glsl");
    v.push("go");
    v.push("graphql");
    v.push("groovy");
    v.push("haskell");
    v.push("html");
    v.push("java");
    v.push("javascript");
    v.push("json");
    v.push("julia");
    v.push("kotlin");
    v.push("latex");
    v.push("less");
    v.push("lisp");
    v.push("livescript");
    v.push("lua");
    v.push("makefile");
    v.push("markdown");
    v.push("markup");
    v.push("matlab");
    v.push("mermaid");
    v.push("nix");
    v.push("objective-c");
    v.push("ocaml");
    v.push("pascal");
    v.push("perl");
    v.push("php");
    v.push("plain text");
    v.push("powershell");
    v.push("prolog");
    v.push("protobuf");
    v.push("python");
    v.push("r");
    v.push("reason");
    v.push("ruby");
    v.push("rust");
    v.push("sass");
    v.push("scala");
    v.push("scheme");
    v.push("scss");
    v.push("shell");
    v.push("sql");
    v.push("swift");
    v.push("typescript");
    v.push("vb.net");
    v.push("verilog");
    v.push("vhdl");
    v.push("visual basic");
    v.push("webassembly");
    v.push("xml");
    v.push("yaml");
    v
}

/// The canonical destination language for a code block's declared
/// language.
pub fn parse_code_language(lang: &Option<String>) -> (r: String)
    ensures
        r@ == spec_language_of(lang.deep_view()),
{
    match lang {
        Option::None => String::from_str("plain text"),
        Option::Some(s) => {
            let lower = lowercase(s.as_str());
            let list = supported_list();
            let n = list.len();
            let mut i: usize = 0;
            while i < n
                invariant
                    n == list@.len(),
                    i <= n,
                    lang.deep_view() == Some(s@),
                    lower@ == lower_of(s@),
                    n == supported_languages().len(),
                    forall|k: int|
                        0 <= k < n ==> (#[trigger] list@[k])@ == supported_languages()[k],
                    forall|k: int| 0 <= k < i ==> supported_languages()[k] != lower@,
                decreases n - i,
            {
                if str_eq(lower.as_str(), list[i]) {
                    proof {
                        assert(supported_languages()[i as int] == lower@);
                        assert(supported_languages().contains(lower_of(s@)));
                    }
                    return lower;
                }
                i = i + 1;
            }
            proof {
                assert(!supported_languages().contains(lower_of(s@))) by {
                    if supported_languages().contains(lower_of(s@)) {
                        let k = choose|k: int|
                            0 <= k < supported_languages().len() && supported_languages()[k]
                                == lower_of(s@);
                        assert(supported_languages()[k] != lower@);
                    }
                }
            }
            String::from_str("plain text")
        },
    }
}

} // verus!
