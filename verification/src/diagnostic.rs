//! The diagnostic model: what a rule reports, and how a list of reports is
//! turned into the lines of a report.

use vstd::prelude::*;
use vstd::string::*;

verus! {

/// The rules of the linter, in the order in which they fire at one node.
#[derive(Clone, Copy, Debug, PartialEq, Eq, Structural)]
pub enum Rule {
    /// A function is named `main`.
    EntryPointName,
    /// A constant is not written in uppercase letters.
    ConstantNaming,
    /// A variable is not in lower camel case.
    VariableNaming,
    /// A variable's name is shorter than three bytes.
    ShortName,
    /// The whole namespace `std` is brought into scope.
    NamespaceImport,
    /// A `goto` statement.
    Goto,
    /// A control flow keyword is not followed by a space and a parenthesis.
    ControlFlowSpacing,
    /// A counting `for` loop that might be a range-based one.
    RangeBasedFor,
    /// A space stands before the parenthesis of a call.
    CallSpacing,
    /// The catch-all header of the standard library is used.
    UmbrellaHeader,
}

/// What a diagnostic says: its message, the line it points at, counted from
/// one, and the rule that raised it.
pub struct DiagnosticView {
    pub message: Seq<char>,
    pub line: nat,
    pub rule: Rule,
}

/// One reported issue. It does not change once it is made.
#[derive(Debug, PartialEq, Eq)]
pub struct Diagnostic {
    message: String,
    line: u64,
    rule: Rule,
}

impl View for Diagnostic {
    type V = DiagnosticView;

    closed spec fn view(&self) -> DiagnosticView {
        DiagnosticView { message: self.message@, line: self.line as nat, rule: self.rule }
    }
}

impl DeepView for Diagnostic {
    type V = DiagnosticView;

    open spec fn deep_view(&self) -> DiagnosticView {
        self@
    }
}

impl Diagnostic {
    /// Lines count from one.
    #[verifier::type_invariant]
    spec fn line_is_positive(self) -> bool {
        self.line >= 1
    }

    /// Makes the diagnostic of `rule` for a node that starts on the row
    /// `row`, counted from zero; the line reported is the one after it.
    pub fn new(rule: Rule, row: u32, message: String) -> (made: Diagnostic)
        ensures
            made@ == (DiagnosticView { message: message@, line: (row + 1) as nat, rule }),
    {
        Diagnostic { message, line: row as u64 + 1, rule }
    }

    /// The text of the report.
    pub fn message(&self) -> (text: &str)
        ensures
            text@ == self@.message,
    {
        self.message.as_str()
    }

    /// The line the report points at, counted from one.
    pub fn line(&self) -> (line: u64)
        ensures
            line == self@.line,
            line >= 1,
    {
        proof {
            use_type_invariant(self);
        }
        self.line
    }

    /// The rule that raised the report.
    pub fn rule(&self) -> (rule: Rule)
        ensures
            rule == self@.rule,
    {
        self.rule
    }
}

/// The lines of the report on `issues`: one line for each issue, in order, or
/// one line that says that there is none.
pub open spec fn report(issues: Seq<DiagnosticView>) -> Seq<Seq<char>> {
    if issues.len() == 0 {
        seq!["No issues found"@]
    } else {
        Seq::new(issues.len(), |i: int| "Issue: "@ + issues[i].message)
    }
}

/// Writes the report on `issues`, line by line.
pub fn report_issues(issues: &Vec<Diagnostic>) -> (lines: Vec<String>)
    ensures
        lines.deep_view() == report(issues.deep_view()),
{
    let mut lines: Vec<String> = Vec::new();
    if issues.len() == 0 {
        lines.push(String::from_str("No issues found"));
        proof {
            assert(lines.deep_view() =~= report(issues.deep_view()));
        }
        return lines;
    }
    let mut i: usize = 0;
    while i < issues.len()
        invariant
            i <= issues@.len(),
            lines@.len() == i,
            forall|j: int|
                0 <= j < i ==> (#[trigger] lines@[j])@ == "Issue: "@ + issues@[j]@.message,
        decreases issues@.len() - i,
    {
        let mut line = String::from_str("Issue: ");
        line.append(issues[i].message());
        lines.push(line);
        i += 1;
    }
    proof {
        assert(lines.deep_view() =~= report(issues.deep_view()));
    }
    lines
}

} // verus!
