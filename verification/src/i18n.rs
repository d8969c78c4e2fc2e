//! Translation resolution: a closed set of display languages, one
//! translation table per language, and a total three-tier lookup that falls
//! back from the selected language to the default language and finally to
//! the raw key.

use vstd::prelude::*;

use crate::text::str_eq;

verus! {

/// Report display language: a closed enumeration. Unknown or empty input
/// codes normalize to the default, `Language::En`.
#[derive(Clone, Copy, Debug, PartialEq, Eq, Structural)]
pub enum Language {
    En,
    Ru,
}

/// Two characters are equal up to ASCII case.
pub open spec fn ascii_eq_ci(a: char, b: char) -> bool {
    a == b || (65 <= a as int <= 90 && b as int == a as int + 32) || (65 <= b as int <= 90
        && a as int == b as int + 32)
}

/// Two character sequences are equal up to ASCII case.
pub open spec fn ascii_seq_eq_ci(a: Seq<char>, b: Seq<char>) -> bool {
    a.len() == b.len() && forall|i: int| 0 <= i < a.len() ==> ascii_eq_ci(a[i], b[i])
}

/// `s` spells the alternate-language code `"ru"`, in any ASCII case.
pub open spec fn is_ru_code(s: Seq<char>) -> bool {
    s.len() == 2 && (s[0] == 'r' || s[0] == 'R') && (s[1] == 'u' || s[1] == 'U')
}

/// The language a free-form code selects: `"ru"` in any ASCII case selects
/// the alternate language, anything else the default.
pub open spec fn spec_language_of(s: Seq<char>) -> Language {
    if is_ru_code(s) {
        Language::Ru
    } else {
        Language::En
    }
}

impl Language {
    /// Total, case-insensitive normalization of a free-form language code.
    pub fn from_str(s: &str) -> (r: Language)
        ensures
            r == spec_language_of(s@),
    {
        if s.unicode_len() == 2 {
            let c0 = s.get_char(0);
            let c1 = s.get_char(1);
            if (c0 == 'r' || c0 == 'R') && (c1 == 'u' || c1 == 'U') {
                return Language::Ru;
            }
        }
        Language::En
    }
}

/// Normalization never distinguishes two codes that differ only in ASCII
/// case, and it is total: every code yields a language.
pub proof fn lemma_language_of_case_insensitive(a: Seq<char>, b: Seq<char>)
    requires
        ascii_seq_eq_ci(a, b),
    ensures
        spec_language_of(a) == spec_language_of(b),
{
    if a.len() == 2 {
        assert(ascii_eq_ci(a[0], b[0]));
        assert(ascii_eq_ci(a[1], b[1]));
        assert((a[0] == 'r' || a[0] == 'R') <==> (b[0] == 'r' || b[0] == 'R'));
        assert((a[1] == 'u' || a[1] == 'U') <==> (b[1] == 'u' || b[1] == 'U'));
    }
}

/// One language's translation table: an ordered list of key/text pairs,
/// looked up by the first matching key.
pub struct TranslationTable {
    entries: Vec<(String, String)>,
}

impl View for TranslationTable {
    type V = Seq<(Seq<char>, Seq<char>)>;

    closed spec fn view(&self) -> Seq<(Seq<char>, Seq<char>)> {
        self.entries@.map_values(|p: (String, String)| (p.0@, p.1@))
    }
}

/// The text the first entry of `table` with key `key` maps to, if any.
pub open spec fn spec_lookup(table: Seq<(Seq<char>, Seq<char>)>, key: Seq<char>) -> Option<
    Seq<char>,
>
    decreases table.len(),
{
    if table.len() == 0 {
        None
    } else if table[0].0 == key {
        Some(table[0].1)
    } else {
        spec_lookup(table.drop_first(), key)
    }
}

/// A key is found exactly when some entry carries it.
pub proof fn lemma_lookup_some_iff_contains(table: Seq<(Seq<char>, Seq<char>)>, key: Seq<char>)
    ensures
        spec_lookup(table, key) is Some <==> exists|i: int|
            0 <= i < table.len() && table[i].0 == key,
    decreases table.len(),
{
    if table.len() > 0 {
        lemma_lookup_some_iff_contains(table.drop_first(), key);
        if table[0].0 != key {
            if spec_lookup(table, key) is Some {
                let i = choose|i: int|
                    0 <= i < table.drop_first().len() && table.drop_first()[i].0 == key;
                assert(table[i + 1].0 == key);
            }
            if exists|i: int| 0 <= i < table.len() && table[i].0 == key {
                let i = choose|i: int| 0 <= i < table.len() && table[i].0 == key;
                assert(table.drop_first()[i - 1].0 == key);
            }
        }
    }
}

impl TranslationTable {
    /// A table with no entries.
    pub fn empty() -> (t: TranslationTable)
        ensures
            t@ == Seq::<(Seq<char>, Seq<char>)>::empty(),
    {
        let t = TranslationTable { entries: Vec::new() };
        proof {
            assert(t@ =~= Seq::<(Seq<char>, Seq<char>)>::empty());
        }
        t
    }

    /// Appends one key/text pair at the end of the table.
    pub fn push_entry(&mut self, key: &str, text: &str)
        ensures
            final(self)@ == old(self)@ + seq![(key@, text@)],
    {
        let pair = (key.to_owned(), text.to_owned());
        self.entries.push(pair);
        proof {
            assert(final(self)@ =~= old(self)@ + seq![(key@, text@)]);
        }
    }

    /// The table holds no entries.
    pub fn is_empty(&self) -> (r: bool)
        ensures
            r == (self@.len() == 0),
    {
        self.entries.len() == 0
    }

    /// The text for `key`, if some entry carries that key.
    pub fn get<'a>(&'a self, key: &str) -> (r: Option<&'a String>)
        ensures
            match r {
                Some(v) => spec_lookup(self@, key@) == Some(v@),
                None => spec_lookup(self@, key@) is None,
            },
    {
        let n = self.entries.len();
        let mut i: usize = 0;
        proof {
            assert(self@.skip(0) =~= self@);
        }
        while i < n
            invariant
                i <= n,
                n == self.entries.len(),
                spec_lookup(self@, key@) == spec_lookup(self@.skip(i as int), key@),
            decreases n - i,
        {
            proof {
                assert(self@.skip(i as int)[0] == self@[i as int]);
            }
            if str_eq(self.entries[i].0.as_str(), key) {
                proof {
                    assert(self@[i as int].0 == key@);
                }
                return Some(&self.entries[i].1);
            }
            proof {
                assert(self@.skip(i as int).drop_first() =~= self@.skip(i + 1));
            }
            i = i + 1;
        }
        proof {
            assert(self@.skip(n as int) =~= Seq::<(Seq<char>, Seq<char>)>::empty());
        }
        None
    }

    /// Some entry carries `key`.
    pub fn contains_key(&self, key: &str) -> (r: bool)
        ensures
            r == (spec_lookup(self@, key@) is Some),
    {
        self.get(key).is_some()
    }

    /// The keys of all entries, in table order.
    pub fn keys(&self) -> (r: Vec<String>)
        ensures
            r@.len() == self@.len(),
            forall|i: int| 0 <= i < r@.len() ==> r@[i]@ == self@[i].0,
    {
        let n = self.entries.len();
        let mut out: Vec<String> = Vec::new();
        let mut i: usize = 0;
        while i < n
            invariant
                i <= n,
                n == self.entries.len(),
                out@.len() == i,
                forall|j: int| 0 <= j < i ==> out@[j]@ == self@[j].0,
            decreases n - i,
        {
            out.push(self.entries[i].0.clone());
            i = i + 1;
        }
        out
    }
}

/// The built-in default-language table, as key/text pairs in table order.
pub open spec fn en_entries() -> Seq<(Seq<char>, Seq<char>)> {
    seq![
        ("report_title"@, "📊 SonarQube Analysis Report"@),
        ("generated"@, "🕒 Generated"@),
        ("project"@, "📁 Project"@),
        ("last_analysis"@, "📅 Last Analysis"@),
        ("latest_issues"@, "🚨 Latest Issues"@),
        ("no_analysis_available"@, "⚠️ No analysis available"@),
        ("no_open_issues"@, "✅ No open issues found."@),
        ("severity"@, "🔥 Severity"@),
        ("message"@, "💬 Message"@),
        ("component"@, "🧩 Component"@),
        ("line"@, "📍 Line"@),
    ]
}

/// The built-in alternate-language table, as key/text pairs in table order.
pub open spec fn ru_entries() -> Seq<(Seq<char>, Seq<char>)> {
    seq![
        ("report_title"@, "📊 Отчёт анализа SonarQube"@),
        ("generated"@, "🕒 Создано"@),
        ("project"@, "📁 Проект"@),
        ("last_analysis"@, "📅 Последний анализ"@),
        ("latest_issues"@, "🚨 Последние проблемы"@),
        ("no_analysis_available"@, "⚠️ Анализ недоступен"@),
        ("no_open_issues"@, "✅ Открытых проблем не найдено."@),
        ("severity"@, "🔥 Важность"@),
        ("message"@, "💬 Сообщение"@),
        ("component"@, "🧩 Компонент"@),
        ("line"@, "📍 Строка"@),
    ]
}

/// The hard-coded minimal default-language table: plain text for every label
/// the report assembler uses, kept as a last line of defense so that report
/// generation can never fail for want of a translation dataset.
pub open spec fn minimal_en_entries() -> Seq<(Seq<char>, Seq<char>)> {
    seq![
        ("report_title"@, "SonarQube Analysis Report"@),
        ("generated"@, "Generated"@),
        ("project"@, "Project"@),
        ("last_analysis"@, "Last Analysis"@),
        ("latest_issues"@, "Latest Issues"@),
        ("no_analysis_available"@, "No analysis available"@),
        ("no_open_issues"@, "No open issues found."@),
        ("severity"@, "Severity"@),
        ("message"@, "Message"@),
        ("component"@, "Component"@),
        ("line"@, "Line"@),
    ]
}

/// The full set of translation tables, one per language: an immutable
/// configuration object constructed once and passed to the report assembler.
pub struct Translations {
    pub en: TranslationTable,
    pub ru: TranslationTable,
}

impl Translations {
    /// The built-in dataset, with every label of both languages.
    pub fn load() -> (t: Translations)
        ensures
            t.en@ == en_entries(),
            t.ru@ == ru_entries(),
    {
        let mut en = TranslationTable::empty();
        en.push_entry("report_title", "📊 SonarQube Analysis Report");
        en.push_entry("generated", "🕒 Generated");
        en.push_entry("project", "📁 Project");
        en.push_entry("last_analysis", "📅 Last Analysis");
        en.push_entry("latest_issues", "🚨 Latest Issues");
        en.push_entry("no_analysis_available", "⚠️ No analysis available");
        en.push_entry("no_open_issues", "✅ No open issues found.");
        en.push_entry("severity", "🔥 Severity");
        en.push_entry("message", "💬 Message");
        en.push_entry("component", "🧩 Component");
        en.push_entry("line", "📍 Line");
        let mut ru = TranslationTable::empty();
        ru.push_entry("report_title", "📊 Отчёт анализа SonarQube");
        ru.push_entry("generated", "🕒 Создано");
        ru.push_entry("project", "📁 Проект");
        ru.push_entry("last_analysis", "📅 Последний анализ");
        ru.push_entry("latest_issues", "🚨 Последние проблемы");
        ru.push_entry("no_analysis_available", "⚠️ Анализ недоступен");
        ru.push_entry("no_open_issues", "✅ Открытых проблем не найдено.");
        ru.push_entry("severity", "🔥 Важность");
        ru.push_entry("message", "💬 Сообщение");
        ru.push_entry("component", "🧩 Компонент");
        ru.push_entry("line", "📍 Строка");
        proof {
            assert(en@ =~= en_entries());
            assert(ru@ =~= ru_entries());
        }
        Translations { en, ru }
    }

    /// The fallback dataset: the hard-coded minimal default-language table
    /// and an empty alternate table, so every lookup resolves through the
    /// default language.
    pub fn fallback() -> (t: Translations)
        ensures
            t.en@ == minimal_en_entries(),
            t.ru@ == Seq::<(Seq<char>, Seq<char>)>::empty(),
    {
        let mut en = TranslationTable::empty();
        en.push_entry("report_title", "SonarQube Analysis Report");
        en.push_entry("generated", "Generated");
        en.push_entry("project", "Project");
        en.push_entry("last_analysis", "Last Analysis");
        en.push_entry("latest_issues", "Latest Issues");
        en.push_entry("no_analysis_available", "No analysis available");
        en.push_entry("no_open_issues", "No open issues found.");
        en.push_entry("severity", "Severity");
        en.push_entry("message", "Message");
        en.push_entry("component", "Component");
        en.push_entry("line", "Line");
        let ru = TranslationTable::empty();
        proof {
            assert(en@ =~= minimal_en_entries());
        }
        Translations { en, ru }
    }

    /// Three-tier lookup in this dataset: the selected language's table,
    /// then the default table, then the key itself.
    pub fn resolve(&self, key: &str, language: &Language) -> (r: String)
        ensures
            r@ == spec_resolve_in(self.en@, self.ru@, key@, *language),
    {
        let primary = match language {
            Language::En => self.en.get(key),
            Language::Ru => self.ru.get(key),
        };
        match primary {
            Some(text) => text.clone(),
            None => match self.en.get(key) {
                Some(text) => text.clone(),
                None => key.to_owned(),
            },
        }
    }
}

/// Three-tier resolution in a pair of tables: the selected language's table
/// first, the default-language table second, the key itself last.
pub open spec fn spec_resolve_in(
    en: Seq<(Seq<char>, Seq<char>)>,
    alt: Seq<(Seq<char>, Seq<char>)>,
    key: Seq<char>,
    lang: Language,
) -> Seq<char> {
    let primary = match lang {
        Language::En => spec_lookup(en, key),
        Language::Ru => spec_lookup(alt, key),
    };
    match primary {
        Some(text) => text,
        None => match spec_lookup(en, key) {
            Some(text) => text,
            None => key,
        },
    }
}

/// Three-tier resolution in the built-in dataset.
pub open spec fn spec_resolve(key: Seq<char>, lang: Language) -> Seq<char> {
    spec_resolve_in(en_entries(), ru_entries(), key, lang)
}

/// The display text for a label key in the built-in dataset, with the
/// three-tier fallback: selected language, default language, raw key.
pub fn get_translation(key: &str, language: &Language) -> (r: String)
    ensures
        r@ == spec_resolve(key@, *language),
{
    let translations = Translations::load();
    translations.resolve(key, language)
}

/// Every key present in the default table resolves, in every language, to a
/// non-empty text that is never the key itself.
#[verifier::rlimit(60)]
pub proof fn lemma_resolve_default_table_key(key: Seq<char>, lang: Language)
    requires
        spec_lookup(en_entries(), key) is Some,
    ensures
        spec_resolve(key, lang).len() > 0,
        spec_resolve(key, lang) != key,
{
    reveal_strlit("report_title");
    reveal_strlit("generated");
    reveal_strlit("project");
    reveal_strlit("last_analysis");
    reveal_strlit("latest_issues");
    reveal_strlit("no_analysis_available");
    reveal_strlit("no_open_issues");
    reveal_strlit("severity");
    reveal_strlit("message");
    reveal_strlit("component");
    reveal_strlit("line");
    reveal_strlit("📊 SonarQube Analysis Report");
    reveal_strlit("🕒 Generated");
    reveal_strlit("📁 Project");
    reveal_strlit("📅 Last Analysis");
    reveal_strlit("🚨 Latest Issues");
    reveal_strlit("⚠️ No analysis available");
    reveal_strlit("✅ No open issues found.");
    reveal_strlit("🔥 Severity");
    reveal_strlit("💬 Message");
    reveal_strlit("🧩 Component");
    reveal_strlit("📍 Line");
    reveal_strlit("📊 Отчёт анализа SonarQube");
    reveal_strlit("🕒 Создано");
    reveal_strlit("📁 Проект");
    reveal_strlit("📅 Последний анализ");
    reveal_strlit("🚨 Последние проблемы");
    reveal_strlit("⚠️ Анализ недоступен");
    reveal_strlit("✅ Открытых проблем не найдено.");
    reveal_strlit("🔥 Важность");
    reveal_strlit("💬 Сообщение");
    reveal_strlit("🧩 Компонент");
    reveal_strlit("📍 Строка");
    reveal_with_fuel(spec_lookup, 13);
    assert("project"@[0] != "message"@[0]);
    assert("generated"@[0] != "component"@[0]);
    assert("last_analysis"@[2] != "latest_issues"@[2]);
    lemma_lookup_some_iff_contains(en_entries(), key);
    let i = choose|i: int| 0 <= i < en_entries().len() && en_entries()[i].0 == key;
    assert(key == en_entries()[i].0);
    if i == 0 {
        assert(spec_resolve(key, Language::En) == "📊 SonarQube Analysis Report"@);
        assert(spec_resolve(key, Language::Ru) == "📊 Отчёт анализа SonarQube"@);
    } else if i == 1 {
        assert(spec_resolve(key, Language::En) == "🕒 Generated"@);
        assert(spec_resolve(key, Language::Ru) == "🕒 Создано"@);
        assert("🕒 Создано"@[0] != "generated"@[0]);
    } else if i == 2 {
        assert(spec_resolve(key, Language::En) == "📁 Project"@);
        assert(spec_resolve(key, Language::Ru) == "📁 Проект"@);
    } else if i == 3 {
        assert(spec_resolve(key, Language::En) == "📅 Last Analysis"@);
        assert(spec_resolve(key, Language::Ru) == "📅 Последний анализ"@);
    } else if i == 4 {
        assert(spec_resolve(key, Language::En) == "🚨 Latest Issues"@);
        assert(spec_resolve(key, Language::Ru) == "🚨 Последние проблемы"@);
    } else if i == 5 {
        assert(spec_resolve(key, Language::En) == "⚠️ No analysis available"@);
        assert(spec_resolve(key, Language::Ru) == "⚠️ Анализ недоступен"@);
    } else if i == 6 {
        assert(spec_resolve(key, Language::En) == "✅ No open issues found."@);
        assert(spec_resolve(key, Language::Ru) == "✅ Открытых проблем не найдено."@);
    } else if i == 7 {
        assert(spec_resolve(key, Language::En) == "🔥 Severity"@);
        assert(spec_resolve(key, Language::Ru) == "🔥 Важность"@);
    } else if i == 8 {
        assert(spec_resolve(key, Language::En) == "💬 Message"@);
        assert(spec_resolve(key, Language::Ru) == "💬 Сообщение"@);
    } else if i == 9 {
        assert(spec_resolve(key, Language::En) == "🧩 Component"@);
        assert(spec_resolve(key, Language::Ru) == "🧩 Компонент"@);
    } else {
        assert(spec_resolve(key, Language::En) == "📍 Line"@);
        assert(spec_resolve(key, Language::Ru) == "📍 Строка"@);
    }
}

/// The label keys the report assembler resolves.
pub open spec fn assembler_label_keys() -> Seq<Seq<char>> {
    seq![
        "report_title"@,
        "generated"@,
        "project"@,
        "last_analysis"@,
        "latest_issues"@,
        "no_analysis_available"@,
        "no_open_issues"@,
        "severity"@,
        "message"@,
        "component"@,
        "line"@,
    ]
}

/// Both default-language tables, the built-in one and the hard-coded
/// minimal one, carry every label key the report assembler uses: whichever
/// dataset is in effect, resolution never has to fall back to a raw key
/// for the assembler's own labels.
#[verifier::rlimit(60)]
pub proof fn lemma_default_tables_cover_assembler_keys(i: int)
    requires
        0 <= i < assembler_label_keys().len(),
    ensures
        spec_lookup(en_entries(), assembler_label_keys()[i]) is Some,
        spec_lookup(minimal_en_entries(), assembler_label_keys()[i]) is Some,
{
    reveal_strlit("report_title");
    reveal_strlit("generated");
    reveal_strlit("project");
    reveal_strlit("last_analysis");
    reveal_strlit("latest_issues");
    reveal_strlit("no_analysis_available");
    reveal_strlit("no_open_issues");
    reveal_strlit("severity");
    reveal_strlit("message");
    reveal_strlit("component");
    reveal_strlit("line");
    reveal_with_fuel(spec_lookup, 13);
    assert("project"@[0] != "message"@[0]);
    assert("generated"@[0] != "component"@[0]);
    assert("last_analysis"@[2] != "latest_issues"@[2]);
}

/// A key absent from every table resolves to itself, in every language.
pub proof fn lemma_resolve_absent_key(key: Seq<char>, lang: Language)
    requires
        spec_lookup(en_entries(), key) is None,
        spec_lookup(ru_entries(), key) is None,
    ensures
        spec_resolve(key, lang) == key,
{
}

} // verus!
