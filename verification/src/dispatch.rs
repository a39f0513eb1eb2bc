//! The format dispatcher and the decision half of the external tool
//! gateway.
//!
//! Extraction needs I/O (reading a file, spawning a converter process), so
//! the dispatcher works in two verified steps around it: `load` turns an
//! extension and the cached tool-availability flags into the action to
//! perform — read the file as text, or run one exactly-specified converter
//! command — and `run_external_tool` classifies a finished invocation's
//! captured output. The caller performs the action between the two steps
//! and wraps extracted text with `load_plain`.

use vstd::prelude::*;

use crate::error::LoaderError;
use crate::strutil::{str_eq, views};

verus! {

/// One unit of extracted text, plus an optional source identifier.
/// Empty content is permitted; it is not an error.
#[derive(Debug, Clone)]
pub struct RagDocument {
    pub page_content: String,
    pub metadata: Option<String>,
}

impl RagDocument {
    pub fn new(page_content: String) -> (d: Self)
        ensures
            d.page_content@ == page_content@,
            d.metadata is None,
    {
        RagDocument { page_content, metadata: None }
    }
}

/// The process-wide cached availability of the external converters,
/// computed once by the caller and read-only thereafter.
#[derive(Debug, Clone, Copy, PartialEq, Eq, Structural)]
pub struct ToolAvailability {
    pub pandoc: bool,
    pub pdftotext: bool,
}

/// An external converter invocation: a program and its arguments.
#[derive(Debug, Clone)]
pub struct ToolCommand {
    pub program: String,
    pub args: Vec<String>,
}

/// What the dispatcher asks its caller to do for one file.
#[derive(Debug, Clone)]
pub enum LoadAction {
    /// Read the file directly as text and wrap it with `load_plain`.
    ReadPlain,
    /// Run the command, capture its output, classify it with
    /// `run_external_tool`, and wrap the resulting text with `load_plain`.
    RunTool(ToolCommand),
}

/// The captured outcome of a finished converter process: whether it exited
/// with status zero, and its decoded standard output and standard error.
#[derive(Debug, Clone)]
pub struct CommandOutput {
    pub success: bool,
    pub stdout: String,
    pub stderr: String,
}

/// The fixed pandoc invocation: convert to plain text on standard output.
pub open spec fn pandoc_command(path: Seq<char>, c: ToolCommand) -> bool {
    c.program@ == "pandoc"@ && views(c.args@) == seq!["--to"@, "plain"@, path]
}

/// The fixed pdftotext invocation: extract to standard output.
pub open spec fn pdftotext_command(path: Seq<char>, c: ToolCommand) -> bool {
    c.program@ == "pdftotext"@ && views(c.args@) == seq![path, "-"@]
}

pub open spec fn uses_pandoc(ext: Seq<char>) -> bool {
    ext == "docx"@ || ext == "epub"@
}

pub open spec fn uses_pdftotext(ext: Seq<char>) -> bool {
    ext == "pdf"@
}

pub open spec fn pandoc_hint() -> Seq<char> {
    "Need to install pandoc to load the file."@
}

pub open spec fn pdftotext_hint() -> Seq<char> {
    "Need to install pdftotext (part of the poppler package) to load the file."@
}

/// Wrap extracted text in the single document an extraction strategy
/// produces. The content round-trips exactly: no transformation is applied.
pub fn load_plain(contents: String) -> (docs: Vec<RagDocument>)
    ensures
        docs@.len() == 1,
        docs@[0].page_content@ == contents@,
        docs@[0].metadata is None,
{
    let document = RagDocument::new(contents);
    let mut docs: Vec<RagDocument> = Vec::new();
    docs.push(document);
    docs
}

/// The pandoc strategy's decision: the exact command when the converter is
/// present, a missing-dependency error when it is not.
pub fn load_with_pandoc(path: &str, available: bool) -> (r: Result<ToolCommand, LoaderError>)
    ensures
        available ==> match r {
            Ok(c) => pandoc_command(path@, c),
            Err(_) => false,
        },
        !available ==> match r {
            Ok(_) => false,
            Err(e) => e matches LoaderError::MissingDependency { tool, install_hint }
                && tool@ == "pandoc"@ && install_hint@ == pandoc_hint(),
        },
{
    if available {
        let mut args: Vec<String> = Vec::new();
        args.push(String::from_str("--to"));
        args.push(String::from_str("plain"));
        args.push(path.to_owned());
        proof {
            assert(views(args@) =~= seq!["--to"@, "plain"@, path@]);
        }
        Ok(ToolCommand { program: String::from_str("pandoc"), args })
    } else {
        Err(
            LoaderError::MissingDependency {
                tool: String::from_str("pandoc"),
                install_hint: String::from_str("Need to install pandoc to load the file."),
            },
        )
    }
}

/// The pdftotext strategy's decision, in the same two cases.
pub fn load_with_pdftotext(path: &str, available: bool) -> (r: Result<ToolCommand, LoaderError>)
    ensures
        available ==> match r {
            Ok(c) => pdftotext_command(path@, c),
            Err(_) => false,
        },
        !available ==> match r {
            Ok(_) => false,
            Err(e) => e matches LoaderError::MissingDependency { tool, install_hint }
                && tool@ == "pdftotext"@ && install_hint@ == pdftotext_hint(),
        },
{
    if available {
        let mut args: Vec<String> = Vec::new();
        args.push(path.to_owned());
        args.push(String::from_str("-"));
        proof {
            assert(views(args@) =~= seq![path@, "-"@]);
        }
        Ok(ToolCommand { program: String::from_str("pdftotext"), args })
    } else {
        Err(
            LoaderError::MissingDependency {
                tool: String::from_str("pdftotext"),
                install_hint: String::from_str(
                    "Need to install pdftotext (part of the poppler package) to load the file.",
                ),
            },
        )
    }
}

/// The dispatch table, case by case over the extension.
pub open spec fn load_plan_ok(
    path: Seq<char>,
    ext: Seq<char>,
    tools: ToolAvailability,
    r: Result<LoadAction, LoaderError>,
) -> bool {
    if uses_pandoc(ext) {
        if tools.pandoc {
            match r {
                Ok(a) => a matches LoadAction::RunTool(c) && pandoc_command(path, c),
                Err(_) => false,
            }
        } else {
            match r {
                Ok(_) => false,
                Err(e) => e matches LoaderError::MissingDependency { tool, install_hint }
                    && tool@ == "pandoc"@ && install_hint@ == pandoc_hint(),
            }
        }
    } else if uses_pdftotext(ext) {
        if tools.pdftotext {
            match r {
                Ok(a) => a matches LoadAction::RunTool(c) && pdftotext_command(path, c),
                Err(_) => false,
            }
        } else {
            match r {
                Ok(_) => false,
                Err(e) => e matches LoaderError::MissingDependency { tool, install_hint }
                    && tool@ == "pdftotext"@ && install_hint@ == pdftotext_hint(),
            }
        }
    } else {
        match r {
            Ok(a) => a is ReadPlain,
            Err(_) => false,
        }
    }
}

/// Select the extraction strategy for one file: `docx` and `epub` go to
/// pandoc, `pdf` to pdftotext, anything else is read directly as text.
/// A strategy whose converter is absent fails here, before any process
/// could be spawned.
pub fn load(path: &str, extension: &str, tools: &ToolAvailability) -> (r: Result<
    LoadAction,
    LoaderError,
>)
    ensures
        load_plan_ok(path@, extension@, *tools, r),
{
    if str_eq(extension, "docx") || str_eq(extension, "epub") {
        match load_with_pandoc(path, tools.pandoc) {
            Ok(c) => Ok(LoadAction::RunTool(c)),
            Err(e) => Err(e),
        }
    } else if str_eq(extension, "pdf") {
        match load_with_pdftotext(path, tools.pdftotext) {
            Ok(c) => Ok(LoadAction::RunTool(c)),
            Err(e) => Err(e),
        }
    } else {
        Ok(LoadAction::ReadPlain)
    }
}

/// How a finished invocation's captured output is classified.
pub open spec fn tool_result_ok(
    cmd: Seq<char>,
    output: CommandOutput,
    r: Result<String, LoaderError>,
) -> bool {
    if output.success {
        match r {
            Ok(s) => s@ == output.stdout@,
            Err(_) => false,
        }
    } else if output.stderr@.len() > 0 {
        match r {
            Ok(_) => false,
            Err(e) => e matches LoaderError::ToolExecutionFailed { message } && message@
                == output.stderr@,
        }
    } else {
        match r {
            Ok(_) => false,
            Err(e) => e matches LoaderError::ToolExecutionFailed { message } && message@ == "`"@
                + cmd + "` exited with non-zero."@,
        }
    }
}

/// Classify a converter's captured output: exit status zero yields the
/// decoded standard output; otherwise the error carries standard error when
/// non-empty, else a generic message naming the tool.
pub fn run_external_tool(cmd: &str, output: CommandOutput) -> (r: Result<String, LoaderError>)
    ensures
        tool_result_ok(cmd@, output, r),
{
    if output.success {
        Ok(output.stdout)
    } else if !output.stderr.as_str().is_empty() {
        Err(LoaderError::ToolExecutionFailed { message: output.stderr })
    } else {
        Err(
            LoaderError::ToolExecutionFailed {
                message: String::from_str("`").concat(cmd).concat("` exited with non-zero."),
            },
        )
    }
}

/// When the converter a file needs is absent, dispatch fails with
/// `MissingDependency`; in particular it never yields a command to run.
pub proof fn lemma_missing_tool_never_spawned(
    path: Seq<char>,
    ext: Seq<char>,
    tools: ToolAvailability,
    r: Result<LoadAction, LoaderError>,
)
    requires
        load_plan_ok(path, ext, tools, r),
        (uses_pandoc(ext) && !tools.pandoc) || (uses_pdftotext(ext) && !tools.pdftotext),
    ensures
        match r {
            Ok(_) => false,
            Err(e) => e matches LoaderError::MissingDependency { .. },
        },
{
    reveal_strlit("pdf");
    reveal_strlit("docx");
    reveal_strlit("epub");
    assert("pdf"@.len() == 3);
    assert("docx"@.len() == 4);
    assert("epub"@.len() == 4);
}

} // verus!
