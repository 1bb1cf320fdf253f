//! Output console model: kinds of output lines, the console tabs and the
//! lines the console holds. How far the console is scrolled is kept by the
//! panel that draws it.

use crate::persistent::{line_list, lines_clear, lines_clone, lines_len, lines_new, lines_push_back};
use vstd::prelude::*;

verus! {

/// Output types.
#[derive(Clone, Copy, Debug, PartialEq, Eq, Structural)]
pub enum OutputType {
    Standard,
    Error,
    Warning,
    Info,
}

/// A single output line.
#[derive(Debug)]
pub struct OutputLine {
    pub text: String,
    pub output_type: OutputType,
}

impl Clone for OutputLine {
    fn clone(&self) -> (r: Self)
        ensures
            r.text@ == self.text@,
            r.output_type == self.output_type,
    {
        OutputLine { text: self.text.clone(), output_type: self.output_type }
    }
}

impl OutputLine {
    pub fn new(text: &str, output_type: OutputType) -> (r: Self)
        ensures
            r.text@ == text@,
            r.output_type == output_type,
    {
        OutputLine { text: String::from_str(text), output_type }
    }

    pub fn stdout(text: &str) -> (r: Self)
        ensures
            r.text@ == text@,
            r.output_type == OutputType::Standard,
    {
        Self::new(text, OutputType::Standard)
    }

    pub fn error(text: &str) -> (r: Self)
        ensures
            r.text@ == text@,
            r.output_type == OutputType::Error,
    {
        Self::new(text, OutputType::Error)
    }

    pub fn warning(text: &str) -> (r: Self)
        ensures
            r.text@ == text@,
            r.output_type == OutputType::Warning,
    {
        Self::new(text, OutputType::Warning)
    }

    pub fn info(text: &str) -> (r: Self)
        ensures
            r.text@ == text@,
            r.output_type == OutputType::Info,
    {
        Self::new(text, OutputType::Info)
    }
}

/// Available output tabs.
#[derive(Clone, Copy, Debug, PartialEq, Eq, Structural)]
pub enum OutputTab {
    Output,
    Problems,
    Terminal,
}

impl OutputTab {
    pub fn label(&self) -> (r: &'static str)
        ensures
            r@ == match *self {
                OutputTab::Output => "Output"@,
                OutputTab::Problems => "Problems"@,
                OutputTab::Terminal => "Terminal"@,
            },
    {
        match self {
            OutputTab::Output => "Output",
            OutputTab::Problems => "Problems",
            OutputTab::Terminal => "Terminal",
        }
    }
}

/// The text and kind of a line.
pub open spec fn line_view(l: OutputLine) -> (Seq<char>, OutputType) {
    (l.text@, l.output_type)
}

/// Output panel state.
#[derive(Debug)]
pub struct OutputState {
    pub lines: im::Vector<OutputLine>,
    pub active_tab: OutputTab,
}

impl OutputState {
    /// The lines of the console, in order, by text and kind.
    pub open spec fn entries(&self) -> Seq<(Seq<char>, OutputType)> {
        line_list(self.lines).map_values(|l: OutputLine| line_view(l))
    }

    fn push_line(&mut self, line: OutputLine)
        requires
            line_list(old(self).lines).len() < usize::MAX,
        ensures
            final(self).entries() == old(self).entries().push(line_view(line)),
            final(self).active_tab == old(self).active_tab,
    {
        let ghost before = line_list(self.lines);
        lines_push_back(&mut self.lines, line);
        assert(self.entries() =~= before.map_values(|l: OutputLine| line_view(l)).push(line_view(line)));
    }

    /// Add an output line.
    pub fn print(&mut self, text: &str)
        requires
            line_list(old(self).lines).len() < usize::MAX,
        ensures
            final(self).entries() == old(self).entries().push((text@, OutputType::Standard)),
            final(self).active_tab == old(self).active_tab,
    {
        self.push_line(OutputLine::stdout(text));
    }

    /// Add an error line.
    pub fn error(&mut self, text: &str)
        requires
            line_list(old(self).lines).len() < usize::MAX,
        ensures
            final(self).entries() == old(self).entries().push((text@, OutputType::Error)),
            final(self).active_tab == old(self).active_tab,
    {
        self.push_line(OutputLine::error(text));
    }

    /// Add a warning line.
    pub fn warning(&mut self, text: &str)
        requires
            line_list(old(self).lines).len() < usize::MAX,
        ensures
            final(self).entries() == old(self).entries().push((text@, OutputType::Warning)),
            final(self).active_tab == old(self).active_tab,
    {
        self.push_line(OutputLine::warning(text));
    }

    /// Add an info line.
    pub fn info(&mut self, text: &str)
        requires
            line_list(old(self).lines).len() < usize::MAX,
        ensures
            final(self).entries() == old(self).entries().push((text@, OutputType::Info)),
            final(self).active_tab == old(self).active_tab,
    {
        self.push_line(OutputLine::info(text));
    }

    /// Clear all output.
    pub fn clear(&mut self)
        ensures
            final(self).entries() == Seq::<(Seq<char>, OutputType)>::empty(),
            final(self).active_tab == old(self).active_tab,
    {
        lines_clear(&mut self.lines);
        assert(self.entries() =~= Seq::<(Seq<char>, OutputType)>::empty());
    }

    /// Number of lines in the console.
    pub fn line_count(&self) -> (r: usize)
        ensures
            r == self.entries().len(),
    {
        lines_len(&self.lines)
    }
}

impl Clone for OutputState {
    fn clone(&self) -> (r: Self)
        ensures
            line_list(r.lines) == line_list(self.lines),
            r.active_tab == self.active_tab,
    {
        OutputState { lines: lines_clone(&self.lines), active_tab: self.active_tab }
    }
}

impl Default for OutputState {
    /// A console that greets the user, on the output tab.
    fn default() -> (r: Self)
        ensures
            r.entries() == seq![
                ("6IDE7 Output Console"@, OutputType::Info),
                ("Ready to run your program..."@, OutputType::Info),
            ],
            r.active_tab == OutputTab::Output,
    {
        let mut s = OutputState { lines: lines_new(), active_tab: OutputTab::Output };
        assert(s.entries() =~= Seq::<(Seq<char>, OutputType)>::empty());
        s.info("6IDE7 Output Console");
        assert(line_list(s.lines).len() == s.entries().len());
        s.info("Ready to run your program...");
        assert(s.entries() =~= seq![
            ("6IDE7 Output Console"@, OutputType::Info),
            ("Ready to run your program..."@, OutputType::Info),
        ]);
        s
    }
}

} // verus!
