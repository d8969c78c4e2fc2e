//! The report assembler: renders an ordered sequence of per-project records
//! as a Markdown document, in a selected language, with graceful
//! degradation. An absent analysis timestamp becomes a placeholder label, a
//! malformed timestamp is rendered verbatim, an empty issue list becomes a
//! fixed line, and table-delimiter characters inside free-form text are
//! escaped so they cannot corrupt the table's column structure.

use vstd::prelude::*;

use crate::client::IssueData;
use crate::i18n::en_entries;
use crate::i18n::ru_entries;
use crate::i18n::spec_resolve;
use crate::i18n::Language;
use crate::i18n::Translations;

verus! {

/// One project's data: its key, an optional analysis timestamp, and its
/// open issues in the order the caller supplied them.
#[derive(Debug)]
pub struct ProjectData {
    pub project_key: String,
    pub last_analysis: Option<String>,
    pub issues: Vec<IssueData>,
}

/// A table cell's text with every delimiter character escaped: each `'|'`
/// becomes `"\|"`, all other characters stay as they are.
pub open spec fn spec_escape(s: Seq<char>) -> Seq<char>
    decreases s.len(),
{
    if s.len() == 0 {
        Seq::empty()
    } else {
        (if s[0] == '|' {
            seq!['\\', '|']
        } else {
            seq![s[0]]
        }) + spec_escape(s.drop_first())
    }
}

proof fn lemma_escape_push(s: Seq<char>, c: char)
    ensures
        spec_escape(s.push(c)) == spec_escape(s) + (if c == '|' {
            seq!['\\', '|']
        } else {
            seq![c]
        }),
    decreases s.len(),
{
    let tail = if c == '|' {
        seq!['\\', '|']
    } else {
        seq![c]
    };
    if s.len() == 0 {
        assert(s.push(c)[0] == c);
        assert(s.push(c).drop_first() =~= Seq::<char>::empty());
        assert(spec_escape(Seq::<char>::empty()) == Seq::<char>::empty());
        assert(spec_escape(s.push(c)) =~= spec_escape(s) + tail);
    } else {
        assert(s.push(c)[0] == s[0]);
        assert(s.push(c).drop_first() =~= s.drop_first().push(c));
        lemma_escape_push(s.drop_first(), c);
        assert(spec_escape(s.push(c)) =~= spec_escape(s) + tail);
    }
}

/// An escaped cell never starts with a delimiter.
proof fn lemma_escape_first(s: Seq<char>)
    requires
        spec_escape(s).len() > 0,
    ensures
        spec_escape(s)[0] != '|',
{
    if s.len() > 0 && s[0] != '|' {
        assert(spec_escape(s)[0] == s[0]);
    }
}

/// Escaping leaves no bare delimiter: every `'|'` in an escaped cell is
/// immediately preceded by a backslash. Splitting a rendered row at the
/// delimiters that escaping leaves bare therefore cannot gain cells from
/// free-form text, whatever that text holds.
pub proof fn lemma_escape_no_bare_delimiter(s: Seq<char>, i: int)
    requires
        0 <= i < spec_escape(s).len(),
        spec_escape(s)[i] == '|',
    ensures
        i > 0,
        spec_escape(s)[i - 1] == '\\',
    decreases s.len(),
{
    let head = if s[0] == '|' {
        seq!['\\', '|']
    } else {
        seq![s[0]]
    };
    let rest = spec_escape(s.drop_first());
    if i < head.len() {
        assert(spec_escape(s)[i] == head[i]);
        if s[0] == '|' {
            assert(i == 1);
            assert(spec_escape(s)[0] == '\\');
        }
    } else {
        let j = i - head.len();
        assert(spec_escape(s)[i] == rest[j]);
        if j == 0 {
            lemma_escape_first(s.drop_first());
        } else {
            lemma_escape_no_bare_delimiter(s.drop_first(), j);
            assert(spec_escape(s)[i - 1] == rest[j - 1]);
        }
    }
}

/// A copy of a cell's text with every `'|'` escaped as `"\|"`.
fn escape_cell(s: &str) -> (r: String)
    ensures
        r@ == spec_escape(s@),
{
    let n = s.unicode_len();
    let mut out = String::new();
    let mut i: usize = 0;
    proof {
        assert(s@.take(0) =~= Seq::<char>::empty());
    }
    while i < n
        invariant
            i <= n,
            n == s@.len(),
            out@ == spec_escape(s@.take(i as int)),
        decreases n - i,
    {
        let c = s.get_char(i);
        if c == '|' {
            out.append("\\|");
            proof {
                reveal_strlit("\\|");
            }
        } else {
            let piece = s.substring_char(i, i + 1);
            out.append(piece);
        }
        proof {
            lemma_escape_push(s@.take(i as int), s@[i as int]);
            assert(s@.take(i + 1) =~= s@.take(i as int).push(s@[i as int]));
            assert(out@ =~= spec_escape(s@.take(i + 1)));
        }
        i = i + 1;
    }
    proof {
        assert(s@.take(n as int) =~= s@);
    }
    out
}

/// The rendering of a parsed analysis timestamp: the wall-clock field of an
/// RFC 3339 text re-rendered as `YYYY-MM-DD HH:MM:SS UTC`, or nothing when
/// the text is not a valid RFC 3339 date-and-time. The rendering is a
/// function of the text alone; it is named here, not written out.
pub uninterp spec fn rfc3339_utc(s: Seq<char>) -> Option<Seq<char>>;

/// Relies on chrono's DateTime::parse_from_rfc3339 and on formatting the
/// parsed value with `"%Y-%m-%d %H:%M:%S UTC"`: whether the text parses,
/// and the rendered form, depend on the text alone.
#[verifier::external_body]
fn render_rfc3339(date: &str) -> (r: Option<String>)
    ensures
        match r {
            Some(t) => rfc3339_utc(date@) == Some(t@),
            None => rfc3339_utc(date@) is None,
        },
{
    match chrono::DateTime::parse_from_rfc3339(date) {
        Ok(parsed) => Some(parsed.format("%Y-%m-%d %H:%M:%S UTC").to_string()),
        Err(_) => None,
    }
}

/// Relies on chrono's Utc::now for the generation timestamp. The clock
/// reading differs from call to call, so nothing is promised of it.
#[verifier::external_body]
fn now_utc_formatted() -> String {
    chrono::Utc::now().format("%Y-%m-%d %H:%M:%S").to_string()
}

/// The rendered analysis date for a present timestamp text: its RFC 3339
/// re-rendering when it parses, the raw text unchanged when it does not.
pub open spec fn spec_format_date(raw: Seq<char>) -> Seq<char> {
    match rfc3339_utc(raw) {
        Some(t) => t,
        None => raw,
    }
}

/// The last-analysis text of a project: a placeholder label when the
/// timestamp is absent, the rendered date otherwise.
pub open spec fn spec_date_text(lang: Language, last_analysis: Option<String>) -> Seq<char> {
    match last_analysis {
        Some(d) => spec_format_date(d@),
        None => spec_resolve("no_analysis_available"@, lang),
    }
}

/// The issue table's header row, with the column labels resolved in the
/// selected language.
pub open spec fn spec_table_header(lang: Language) -> Seq<char> {
    "| "@ + spec_resolve("severity"@, lang) + " | "@ + spec_resolve("message"@, lang) + " | "@
        + spec_resolve("component"@, lang) + " | "@ + spec_resolve("line"@, lang) + " |\n"@
}

/// The fixed row between the table's header and its data rows.
pub open spec fn spec_delimiter_row() -> Seq<char> {
    "|----------|---------|-----------|------|\n"@
}

/// One issue's data row: severity and line verbatim, message and component
/// with delimiters escaped.
pub open spec fn spec_issue_row(issue: IssueData) -> Seq<char> {
    "| "@ + issue.severity@ + " | "@ + spec_escape(issue.message@) + " | "@ + spec_escape(
        issue.component@,
    ) + " | "@ + issue.line@ + " |\n"@
}

/// The data rows of a sequence of issues, in input order.
pub open spec fn spec_issue_rows(issues: Seq<IssueData>) -> Seq<char>
    decreases issues.len(),
{
    if issues.len() == 0 {
        Seq::empty()
    } else {
        spec_issue_row(issues[0]) + spec_issue_rows(issues.drop_first())
    }
}

proof fn lemma_issue_rows_push(issues: Seq<IssueData>, issue: IssueData)
    ensures
        spec_issue_rows(issues.push(issue)) == spec_issue_rows(issues) + spec_issue_row(issue),
    decreases issues.len(),
{
    if issues.len() == 0 {
        assert(issues.push(issue)[0] == issue);
        assert(issues.push(issue).drop_first() =~= Seq::<IssueData>::empty());
        assert(spec_issue_rows(Seq::<IssueData>::empty()) == Seq::<char>::empty());
        assert(spec_issue_rows(issues.push(issue)) =~= spec_issue_rows(issues) + spec_issue_row(
            issue,
        ));
    } else {
        assert(issues.push(issue)[0] == issues[0]);
        assert(issues.push(issue).drop_first() =~= issues.drop_first().push(issue));
        lemma_issue_rows_push(issues.drop_first(), issue);
        assert(spec_issue_rows(issues.push(issue)) =~= spec_issue_rows(issues) + spec_issue_row(
            issue,
        ));
    }
}

/// The issues section's body: a fixed no-open-issues line for an empty
/// sequence, otherwise the full table.
pub open spec fn spec_issues_table(lang: Language, issues: Seq<IssueData>) -> Seq<char> {
    if issues.len() == 0 {
        spec_resolve("no_open_issues"@, lang)
    } else {
        spec_table_header(lang) + spec_delimiter_row() + spec_issue_rows(issues)
    }
}

/// One project's document section: heading, last-analysis line, issues
/// header, issues body, trailing separator.
pub open spec fn spec_project_section(lang: Language, project: ProjectData) -> Seq<char> {
    "## "@ + spec_resolve("project"@, lang) + ": "@ + project.project_key@ + "\n\n**"@
        + spec_resolve("last_analysis"@, lang) + ":** "@ + spec_date_text(
        lang,
        project.last_analysis,
    ) + "\n\n**"@ + spec_resolve("latest_issues"@, lang) + ":**\n\n"@ + spec_issues_table(
        lang,
        project.issues@,
    ) + "\n\n---\n\n"@
}

/// The concatenated sections of a sequence of projects, in input order.
pub open spec fn spec_sections(lang: Language, projects: Seq<ProjectData>) -> Seq<char>
    decreases projects.len(),
{
    if projects.len() == 0 {
        Seq::empty()
    } else {
        spec_project_section(lang, projects[0]) + spec_sections(lang, projects.drop_first())
    }
}

proof fn lemma_sections_push(lang: Language, projects: Seq<ProjectData>, project: ProjectData)
    ensures
        spec_sections(lang, projects.push(project)) == spec_sections(lang, projects)
            + spec_project_section(lang, project),
    decreases projects.len(),
{
    if projects.len() == 0 {
        assert(projects.push(project)[0] == project);
        assert(projects.push(project).drop_first() =~= Seq::<ProjectData>::empty());
        assert(spec_sections(lang, Seq::<ProjectData>::empty()) == Seq::<char>::empty());
        assert(spec_sections(lang, projects.push(project)) =~= spec_sections(lang, projects)
            + spec_project_section(lang, project));
    } else {
        assert(projects.push(project)[0] == projects[0]);
        assert(projects.push(project).drop_first() =~= projects.drop_first().push(project));
        lemma_sections_push(lang, projects.drop_first(), project);
        assert(spec_sections(lang, projects.push(project)) =~= spec_sections(lang, projects)
            + spec_project_section(lang, project));
    }
}

/// The whole document for a project sequence, a language and a
/// generation-timestamp text: title line, generation line, separator, then
/// one section per project in input order.
pub open spec fn spec_report(
    lang: Language,
    projects: Seq<ProjectData>,
    generated_at: Seq<char>,
) -> Seq<char> {
    "# "@ + spec_resolve("report_title"@, lang) + "\n\n"@ + spec_resolve("generated"@, lang)
        + ": "@ + generated_at + "\n\n---\n\n"@ + spec_sections(lang, projects)
}

/// The document is a function of the project data, the language and the
/// clock reading alone: two assemblies of identical inputs at the same
/// instant are byte-identical.
pub proof fn lemma_report_deterministic(
    lang: Language,
    projects: Seq<ProjectData>,
    generated_at: Seq<char>,
    first: Seq<char>,
    second: Seq<char>,
)
    requires
        first == spec_report(lang, projects, generated_at),
        second == spec_report(lang, projects, generated_at),
    ensures
        first == second,
{
}

/// The report assembler: a selected language together with the translation
/// dataset, constructed once and reused for every document.
pub struct MarkdownReportGenerator {
    language: Language,
    translations: Translations,
}

impl MarkdownReportGenerator {
    /// The selected display language.
    pub closed spec fn lang(&self) -> Language {
        self.language
    }

    /// The generator carries the built-in translation dataset.
    pub closed spec fn wf(&self) -> bool {
        self.translations.en@ == en_entries() && self.translations.ru@ == ru_entries()
    }

    /// A generator for one language, with the translation dataset
    /// constructed at creation and reused for every document.
    pub fn new(language: Language) -> (r: MarkdownReportGenerator)
        ensures
            r.lang() == language,
            r.wf(),
    {
        MarkdownReportGenerator { language, translations: Translations::load() }
    }

    /// The last-analysis text for an optional timestamp: a placeholder
    /// label when absent, the re-rendered date when it parses as RFC 3339,
    /// the raw text unchanged when it does not.
    pub fn format_analysis_date(&self, date_str: Option<&str>) -> (r: String)
        requires
            self.wf(),
        ensures
            r@ == match date_str {
                Some(d) => spec_format_date(d@),
                None => spec_resolve("no_analysis_available"@, self.lang()),
            },
    {
        match date_str {
            None => self.translations.resolve("no_analysis_available", &self.language),
            Some(date) => match render_rfc3339(date) {
                Some(rendered) => rendered,
                None => date.to_owned(),
            },
        }
    }

    /// The issues section's body for a slice of issues: the no-open-issues
    /// line when the slice is empty, otherwise the header row, the
    /// delimiter row, and one data row per issue in input order.
    #[verifier::rlimit(100)]
    pub fn generate_issues_table(&self, issues: &[IssueData]) -> (r: String)
        requires
            self.wf(),
        ensures
            r@ == spec_issues_table(self.lang(), issues@),
    {
        if issues.len() == 0 {
            return self.translations.resolve("no_open_issues", &self.language);
        }
        let severity_col = self.translations.resolve("severity", &self.language);
        let message_col = self.translations.resolve("message", &self.language);
        let component_col = self.translations.resolve("component", &self.language);
        let line_col = self.translations.resolve("line", &self.language);

        let mut table = String::from_str("| ");
        table.append(severity_col.as_str());
        table.append(" | ");
        table.append(message_col.as_str());
        table.append(" | ");
        table.append(component_col.as_str());
        table.append(" | ");
        table.append(line_col.as_str());
        table.append(" |\n");
        proof {
            assert(table@ =~= spec_table_header(self.lang()));
        }
        table.append("|----------|---------|-----------|------|\n");
        let ghost prefix = spec_table_header(self.lang()) + spec_delimiter_row();
        proof {
            assert(issues@.take(0) =~= Seq::<IssueData>::empty());
            assert(table@ =~= prefix + spec_issue_rows(issues@.take(0)));
        }
        let n = issues.len();
        let mut i: usize = 0;
        while i < n
            invariant
                i <= n,
                n == issues@.len(),
                prefix == spec_table_header(self.lang()) + spec_delimiter_row(),
                table@ == prefix + spec_issue_rows(issues@.take(i as int)),
            decreases n - i,
        {
            let issue = vstd::slice::slice_index_get(issues, i);
            let message = escape_cell(issue.message.as_str());
            let component = escape_cell(issue.component.as_str());
            table.append("| ");
            table.append(issue.severity.as_str());
            table.append(" | ");
            table.append(message.as_str());
            table.append(" | ");
            table.append(component.as_str());
            table.append(" | ");
            table.append(issue.line.as_str());
            table.append(" |\n");
            proof {
                lemma_issue_rows_push(issues@.take(i as int), issues@[i as int]);
                assert(issues@.take(i + 1) =~= issues@.take(i as int).push(issues@[i as int]));
                assert(table@ =~= prefix + spec_issue_rows(issues@.take(i + 1)));
            }
            i = i + 1;
        }
        proof {
            assert(issues@.take(n as int) =~= issues@);
        }
        table
    }

    /// One project's document section.
    fn project_section(&self, project: &ProjectData) -> (r: String)
        requires
            self.wf(),
        ensures
            r@ == spec_project_section(self.lang(), *project),
    {
        let mut section = String::from_str("## ");
        let project_label = self.translations.resolve("project", &self.language);
        section.append(project_label.as_str());
        section.append(": ");
        section.append(project.project_key.as_str());
        section.append("\n\n**");
        let last_analysis_label = self.translations.resolve("last_analysis", &self.language);
        section.append(last_analysis_label.as_str());
        section.append(":** ");
        let date_text = match &project.last_analysis {
            Some(date) => self.format_analysis_date(Some(date.as_str())),
            None => self.format_analysis_date(None),
        };
        section.append(date_text.as_str());
        section.append("\n\n**");
        let latest_issues_label = self.translations.resolve("latest_issues", &self.language);
        section.append(latest_issues_label.as_str());
        section.append(":**\n\n");
        let table = self.generate_issues_table(project.issues.as_slice());
        section.append(table.as_str());
        section.append("\n\n---\n\n");
        proof {
            assert(section@ =~= spec_project_section(self.lang(), *project));
        }
        section
    }

    /// The whole document for a given generation-timestamp text: a pure
    /// function of its inputs, so identical inputs give a byte-identical
    /// document.
    #[verifier::rlimit(60)]
    pub fn render_report(&self, projects_data: &[ProjectData], generated_at: &str) -> (r: String)
        requires
            self.wf(),
        ensures
            r@ == spec_report(self.lang(), projects_data@, generated_at@),
    {
        let mut report = String::from_str("# ");
        let title = self.translations.resolve("report_title", &self.language);
        report.append(title.as_str());
        report.append("\n\n");
        let generated_label = self.translations.resolve("generated", &self.language);
        report.append(generated_label.as_str());
        report.append(": ");
        report.append(generated_at);
        report.append("\n\n---\n\n");
        let ghost prefix = "# "@ + spec_resolve("report_title"@, self.lang()) + "\n\n"@
            + spec_resolve("generated"@, self.lang()) + ": "@ + generated_at@ + "\n\n---\n\n"@;
        proof {
            assert(projects_data@.take(0) =~= Seq::<ProjectData>::empty());
            assert(report@ =~= prefix + spec_sections(self.lang(), projects_data@.take(0)));
        }
        let n = projects_data.len();
        let mut i: usize = 0;
        while i < n
            invariant
                i <= n,
                n == projects_data@.len(),
                self.wf(),
                prefix == "# "@ + spec_resolve("report_title"@, self.lang()) + "\n\n"@
                    + spec_resolve("generated"@, self.lang()) + ": "@ + generated_at@
                    + "\n\n---\n\n"@,
                report@ == prefix + spec_sections(self.lang(), projects_data@.take(i as int)),
            decreases n - i,
        {
            let project = vstd::slice::slice_index_get(projects_data, i);
            let section = self.project_section(project);
            report.append(section.as_str());
            proof {
                lemma_sections_push(
                    self.lang(),
                    projects_data@.take(i as int),
                    projects_data@[i as int],
                );
                assert(projects_data@.take(i + 1) =~= projects_data@.take(i as int).push(
                    projects_data@[i as int],
                ));
                assert(report@ =~= prefix + spec_sections(
                    self.lang(),
                    projects_data@.take(i + 1),
                ));
            }
            i = i + 1;
        }
        proof {
            assert(projects_data@.take(n as int) =~= projects_data@);
            assert(report@ =~= spec_report(self.lang(), projects_data@, generated_at@));
        }
        report
    }

    /// The whole document, generated at the current wall-clock time: the
    /// rendering of the inputs for some generation-timestamp text.
    pub fn generate_report(&self, projects_data: &[ProjectData]) -> (r: String)
        requires
            self.wf(),
        ensures
            exists|generated_at: Seq<char>|
                r@ == spec_report(self.lang(), projects_data@, generated_at),
    {
        let now = now_utc_formatted();
        let r = self.render_report(projects_data, now.as_str());
        proof {
            assert(r@ == spec_report(self.lang(), projects_data@, now@));
        }
        r
    }
}

} // verus!
