//! The configuration builder: sources (TOML text, files, environment
//! variables) are merged into a `figment::Figment` while the builder keeps
//! the list of what it merged and records numbered debug messages about each
//! step.

use vstd::prelude::*;
use crate::format::{decimal, decimal_text};
use crate::text::{
    concat, count_newlines, utf8_len, utf8_length_of, byte_prefix, has_byte_prefix, newline_count, starts_with,
    ends_with, has_prefix, has_suffix, find_str, find_sub, substring, str_equal,
};
use crate::verbosity::{
    DebugCollector, DebugMessage, VerbosityLevel, level_of_count, INFO, DEBUG, TRACE, SILENT,
};

verus! {

/// A configuration in the making, of the `figment` crate.
#[verifier::external_type_specification]
#[verifier::external_body]
pub struct ExFigment(figment::Figment);

/// An error of the `figment` crate.
#[verifier::external_type_specification]
#[verifier::external_body]
pub struct ExFigmentError(figment::Error);

/// Whether the configuration `figment` holds no error, has the default
/// profile selected and holds nothing in the global profile: then what
/// extraction reads is exactly what was merged into the default profile.
pub uninterp spec fn figment_plain(figment: figment::Figment) -> bool;

/// Whether `Toml::string(text)` gives its data without an error: whether
/// `text` is well-formed TOML.
pub uninterp spec fn toml_parses(text: Seq<char>) -> bool;

/// The string that the data of `Toml::string(text)` holds at the dotted key
/// `key` (`Value::find`), or `None` when the text does not parse or holds no
/// string there.
pub uninterp spec fn toml_string_at(text: Seq<char>, key: Seq<char>) -> Option<Seq<char>>;

/// An empty configuration, `Figment::new()`.
///
/// Trusted: it holds no error and no data, with the default profile
/// selected (see `figment_plain`).
#[verifier::external_body]
fn empty_figment() -> (r: figment::Figment)
    ensures
        figment_plain(r),
{
    figment::Figment::new()
}

/// What merging the TOML text `text` over `before`, giving `after`, is known
/// to do: a plain configuration stays plain when the text parses, and every
/// string the text holds is then what extraction gives at its key, whatever
/// was there before.
pub open spec fn text_merge_facts(before: figment::Figment, text: Seq<char>, after: figment::Figment) -> bool {
    &&& figment_plain(before) && toml_parses(text) ==> figment_plain(after)
    &&& forall|key: Seq<char>|
        figment_plain(before) && #[trigger] toml_string_at(text, key) is Some ==> extracted_string(after, key) == toml_string_at(text, key)
}

/// Whether `after` is what `Figment::merge` made of the configuration
/// `before` and the provider that `source` describes: TOML text
/// (`Toml::string`), a file in its format (`Toml::file`, `Json::file`,
/// `Yaml::file`), or the environment variables with a prefix, the listed
/// names left out (`Env::prefixed(..).ignore(..)`). It relates, and does not
/// compute: a merge reads files and the environment when it runs and stamps
/// the new values with a fresh tag, so merging one source twice may give two
/// configurations.
pub uninterp spec fn merged_from(before: figment::Figment, source: SourceModel, after: figment::Figment) -> bool;

/// Later sources win: when a plain configuration gets TOML text `first`
/// (well-formed) and then TOML text `second` merged over it, as
/// `with_defaults_string` does, every string that `second` sets is what
/// extraction gives at its key, whatever `first` held there, and the
/// configuration stays plain when `second` parses too.
pub proof fn law_later_text_wins(
    before: figment::Figment,
    first: Seq<char>,
    mid: figment::Figment,
    second: Seq<char>,
    after: figment::Figment,
    key: Seq<char>,
)
    requires
        figment_plain(before),
        toml_parses(first),
        text_merge_facts(before, first, mid),
        text_merge_facts(mid, second, after),
        toml_string_at(second, key) is Some,
    ensures
        extracted_string(after, key) == toml_string_at(second, key),
        toml_parses(second) ==> figment_plain(after),
{
}

/// `figment` with the TOML text `content` merged over it,
/// `figment.merge(Toml::string(content))`.
///
/// Trusted: the result is the merge of that text over `figment` (see
/// `merged_from`). The text's data goes to the default profile and, where
/// the text sets a key, replaces what was there (a table merges with a
/// table), so on a plain configuration each string the text holds is what
/// extraction then gives; a text that parses keeps the configuration plain.
#[verifier::external_body]
fn merge_toml_text(figment: figment::Figment, content: &str) -> (r: figment::Figment)
    ensures
        merged_from(figment, SourceModel::TomlText(content@), r),
        figment_plain(figment) && toml_parses(content@) ==> figment_plain(r),
        forall|key: Seq<char>|
            figment_plain(figment) && #[trigger] toml_string_at(content@, key) is Some ==> extracted_string(r, key) == toml_string_at(content@, key),
{
    figment.merge(<figment::providers::Toml as figment::providers::Format>::string(content))
}

/// What `figment.extract_inner::<String>(key)` gives for the configuration
/// `figment` and the dotted key `key`: the string found there, or `None`
/// when the extraction fails.
pub uninterp spec fn extracted_string(figment: figment::Figment, key: Seq<char>) -> Option<Seq<char>>;

/// The string under the dotted key `key`, `figment.extract_inner::<String>(key)`.
///
/// Trusted: the call succeeds exactly when `extracted_string` names a
/// string, and gives that string; the extraction reads only the data that
/// was merged into `figment`.
#[verifier::external_body]
fn extract_string(figment: &figment::Figment, key: &str) -> (r: Result<String, figment::Error>)
    ensures
        r is Ok <==> extracted_string(*figment, key@) is Some,
        r matches Ok(t) ==> extracted_string(*figment, key@) == Some(t@),
{
    figment.extract_inner::<String>(key)
}

/// `figment` with the TOML file at `path` merged over it,
/// `figment.merge(Toml::file(path))`.
///
/// Trusted: the result is the merge of that file, read as TOML, over
/// `figment` (see `merged_from`); the file is read from disk during the
/// merge, so nothing more is stated about what it holds.
#[verifier::external_body]
fn merge_toml_file(figment: figment::Figment, path: &str) -> (r: figment::Figment)
    ensures
        merged_from(figment, SourceModel::File(path@, FileFormat::Toml), r),
{
    figment.merge(<figment::providers::Toml as figment::providers::Format>::file(path))
}

/// `figment` with the JSON file at `path` merged over it,
/// `figment.merge(Json::file(path))`.
///
/// Trusted: the result is the merge of that file, read as JSON, over
/// `figment` (see `merged_from`); nothing more is stated.
#[verifier::external_body]
fn merge_json_file(figment: figment::Figment, path: &str) -> (r: figment::Figment)
    ensures
        merged_from(figment, SourceModel::File(path@, FileFormat::Json), r),
{
    figment.merge(<figment::providers::Json as figment::providers::Format>::file(path))
}

/// `figment` with the YAML file at `path` merged over it,
/// `figment.merge(Yaml::file(path))`.
///
/// Trusted: the result is the merge of that file, read as YAML, over
/// `figment` (see `merged_from`); nothing more is stated.
#[verifier::external_body]
fn merge_yaml_file(figment: figment::Figment, path: &str) -> (r: figment::Figment)
    ensures
        merged_from(figment, SourceModel::File(path@, FileFormat::Yaml), r),
{
    figment.merge(<figment::providers::Yaml as figment::providers::Format>::file(path))
}

/// `figment` with the environment variables whose names start with `prefix`
/// merged over it, those named by `ignore` (after the prefix) left out:
/// `figment.merge(Env::prefixed(prefix).ignore(ignore))`.
///
/// Trusted: the result is that merge (see `merged_from`). The variables go
/// to the default profile and always parse, so a plain configuration stays
/// plain; the process environment is read during the merge, so nothing is
/// stated about the values.
#[verifier::external_body]
fn merge_env_vars(figment: figment::Figment, prefix: &str, ignore: &Vec<String>) -> (r: figment::Figment)
    ensures
        merged_from(figment, SourceModel::Env(prefix@, ignore.deep_view()), r),
        figment_plain(figment) ==> figment_plain(r),
{
    let names: Vec<&str> = ignore.iter().map(|k| k.as_str()).collect();
    figment.merge(figment::providers::Env::prefixed(prefix).ignore(&names))
}

/// Whether `figment.find_value(key)` finds a value at the dotted key `key`
/// of the configuration `figment`.
pub uninterp spec fn value_found(figment: figment::Figment, key: Seq<char>) -> bool;

/// Looks up the dotted key `key`, `figment.find_value(key)`, keeping only
/// whether it was found.
///
/// Trusted: the call succeeds exactly when `value_found` holds.
#[verifier::external_body]
fn find_value_at(figment: &figment::Figment, key: &str) -> (r: Result<(), figment::Error>)
    ensures
        r is Ok <==> value_found(*figment, key@),
{
    figment.find_value(key).map(|_| ())
}

/// Whether a figment error says that a field is missing, `e.missing()`.
/// Nothing is stated: the error's kind is not visible here.
#[verifier::external_body]
fn error_is_missing(e: &figment::Error) -> bool {
    e.missing()
}

/// Whether the configuration `figment` holds a value at the dotted key
/// `key`: `Ok(true)` when it does, `Ok(false)` when the lookup reports the
/// field missing, and the lookup's error otherwise.
pub fn figment_has_key(figment: &figment::Figment, key: &str) -> (r: Result<bool, figment::Error>)
    ensures
        value_found(*figment, key@) ==> r matches Ok(true),
        r matches Ok(b) ==> b == value_found(*figment, key@),
{
    match find_value_at(figment, key) {
        Ok(()) => Ok(true),
        Err(e) => {
            if error_is_missing(&e) {
                Ok(false)
            } else {
                Err(e)
            }
        },
    }
}

/// What `str::to_lowercase` gives for `s` (full Unicode lower-casing).
pub uninterp spec fn lowercase_of(s: Seq<char>) -> Seq<char>;

/// `s` in lower case, `str::to_lowercase`.
///
/// Trusted: the result is the one `lowercase_of` names.
#[verifier::external_body]
fn to_lower(s: &str) -> (r: String)
    ensures
        r@ == lowercase_of(s@),
{
    s.to_lowercase()
}

/// Whether `s` holds `t` somewhere.
pub open spec fn holds(s: Seq<char>, t: Seq<char>) -> bool {
    find_sub(s, t) is Some
}

/// Whether the name of an environment variable marks a secret: its lower
/// case holds `password`, `secret`, `token` or `key`.
pub open spec fn is_secret_name(key: Seq<char>) -> bool {
    let k = lowercase_of(key);
    holds(k, "password"@) || holds(k, "secret"@) || holds(k, "token"@) || holds(k, "key"@)
}

/// The value shown for a variable: masked for secret names.
pub open spec fn shown_value(key: Seq<char>, value: Seq<char>) -> Seq<char> {
    if is_secret_name(key) { "***MASKED***"@ } else { value }
}

/// The variables of `vars` whose names start with `prefix`, in order.
pub open spec fn vars_with_prefix(vars: Seq<(Seq<char>, Seq<char>)>, prefix: Seq<char>) -> Seq<(Seq<char>, Seq<char>)>
    decreases vars.len(),
{
    if vars.len() == 0 {
        Seq::empty()
    } else {
        let rest = vars_with_prefix(vars.drop_last(), prefix);
        if starts_with(vars.last().0, prefix) { rest.push(vars.last()) } else { rest }
    }
}

/// The models of a list of variables.
pub open spec fn vars_model(vars: Seq<(String, String)>) -> Seq<(Seq<char>, Seq<char>)> {
    vars.map_values(|kv: (String, String)| (kv.0@, kv.1@))
}

/// Whether the value of an environment variable reads as an empty value:
/// nothing, or the empty array `[]`, object `{}` or quoted string `""` in
/// the syntax in which `figment` parses variable values.
pub open spec fn blank_value(v: Seq<char>) -> bool {
    v.len() == 0 || v == "[]"@ || v == "{}"@ || v == "\"\""@
}

/// The names, after the prefix, of the variables with an empty value (see
/// `blank_value`).
pub open spec fn empty_var_names(vars: Seq<(Seq<char>, Seq<char>)>, prefix: Seq<char>) -> Seq<Seq<char>>
    decreases vars.len(),
{
    if vars.len() == 0 {
        Seq::empty()
    } else {
        let rest = empty_var_names(vars.drop_last(), prefix);
        let (k, v) = vars.last();
        if starts_with(k, prefix) && blank_value(v) {
            rest.push(k.subrange(prefix.len() as int, k.len() as int))
        } else {
            rest
        }
    }
}

/// Which variables are ignored: the list names each variable that has the
/// prefix and an empty (or blank, see `blank_value`) value, by its name
/// with the prefix removed, as the environment provider compares them; and
/// each name it lists is such a variable's name after the prefix.
pub proof fn law_ignored_names_follow_prefix(vars: Seq<(Seq<char>, Seq<char>)>, prefix: Seq<char>)
    ensures
        forall|i: int| 0 <= i < vars.len() && starts_with((#[trigger] vars[i]).0, prefix) && blank_value(vars[i].1)
            ==> empty_var_names(vars, prefix).contains(vars[i].0.subrange(prefix.len() as int, vars[i].0.len() as int)),
        forall|i: int| 0 <= i < vars.len() && starts_with((#[trigger] vars[i]).0, prefix) && vars[i].1.len() == 0
            ==> empty_var_names(vars, prefix).contains(vars[i].0.subrange(prefix.len() as int, vars[i].0.len() as int)),
        forall|n: Seq<char>| #[trigger] empty_var_names(vars, prefix).contains(n) ==> exists|i: int|
            0 <= i < vars.len() && starts_with((#[trigger] vars[i]).0, prefix) && blank_value(vars[i].1)
            && prefix + n == vars[i].0,
    decreases vars.len(),
{
    if vars.len() > 0 {
        let d = vars.drop_last();
        law_ignored_names_follow_prefix(d, prefix);
        let rest = empty_var_names(d, prefix);
        let r = empty_var_names(vars, prefix);
        let (k, v) = vars.last();
        assert forall|i: int| 0 <= i < vars.len() && starts_with((#[trigger] vars[i]).0, prefix) && blank_value(vars[i].1)
            implies r.contains(vars[i].0.subrange(prefix.len() as int, vars[i].0.len() as int)) by {
            let x = vars[i].0.subrange(prefix.len() as int, vars[i].0.len() as int);
            if i < vars.len() - 1 {
                assert(vars[i] == d[i]);
                assert(rest.contains(x));
                let j = choose|j: int| 0 <= j < rest.len() && rest[j] == x;
                if starts_with(k, prefix) && blank_value(v) {
                    assert(r == rest.push(k.subrange(prefix.len() as int, k.len() as int)));
                    assert(r[j] == x);
                }
            } else {
                assert(vars[i] == vars.last());
                assert(r == rest.push(x));
                assert(r[rest.len() as int] == x);
            }
        }
        assert forall|n: Seq<char>| #[trigger] r.contains(n) implies exists|i: int|
            0 <= i < vars.len() && starts_with((#[trigger] vars[i]).0, prefix) && blank_value(vars[i].1)
            && prefix + n == vars[i].0 by {
            let j = choose|j: int| 0 <= j < r.len() && r[j] == n;
            if j < rest.len() {
                if starts_with(k, prefix) && blank_value(v) {
                    assert(r == rest.push(k.subrange(prefix.len() as int, k.len() as int)));
                }
                assert(rest[j] == n);
                assert(rest.contains(n));
                let i0 = choose|i: int| 0 <= i < d.len() && starts_with((#[trigger] d[i]).0, prefix) && blank_value(d[i].1)
                    && prefix + n == d[i].0;
                assert(vars[i0] == d[i0]);
            } else {
                assert(starts_with(k, prefix) && blank_value(v));
                assert(r == rest.push(k.subrange(prefix.len() as int, k.len() as int)));
                assert(n == k.subrange(prefix.len() as int, k.len() as int));
                assert(prefix + n =~= k);
                assert(vars[vars.len() - 1] == vars.last());
            }
        }
        assert forall|i: int| 0 <= i < vars.len() && starts_with((#[trigger] vars[i]).0, prefix) && vars[i].1.len() == 0
            implies r.contains(vars[i].0.subrange(prefix.len() as int, vars[i].0.len() as int)) by {
            assert(blank_value(vars[i].1));
        }
    }
}

/// The format a configuration file is read in, by its extension.
#[derive(Debug, Clone, Copy, PartialEq, Eq, Structural)]
pub enum FileFormat {
    /// `.json`
    Json,
    /// `.yaml` or `.yml`
    Yaml,
    /// anything else
    Toml,
}

/// A source merged into the configuration, as a value.
pub enum SourceModel {
    /// TOML text
    TomlText(Seq<char>),
    /// A file read in a format
    File(Seq<char>, FileFormat),
    /// The environment variables with a prefix, the named ones (after the
    /// prefix) left out
    Env(Seq<char>, Seq<Seq<char>>),
    /// A configuration the caller merged itself (see `with_figment`)
    Provided,
}

/// A source merged into the configuration.
pub enum Source {
    /// TOML text
    TomlText(String),
    /// A file read in a format
    File { path: String, format: FileFormat },
    /// The environment variables with a prefix, the named ones (after the
    /// prefix) left out
    Env { prefix: String, ignore: Vec<String> },
    /// A configuration the caller merged itself
    Provided,
}

impl View for Source {
    type V = SourceModel;

    open spec fn view(&self) -> SourceModel {
        match self {
            Source::TomlText(t) => SourceModel::TomlText(t@),
            Source::File { path, format } => SourceModel::File(path@, *format),
            Source::Env { prefix, ignore } => SourceModel::Env(prefix@, ignore.deep_view()),
            Source::Provided => SourceModel::Provided,
        }
    }
}

/// `figment` with the source `s` merged over it: TOML text, a file in its
/// format, or the environment variables without the ignored names.
fn merge_source(figment: figment::Figment, s: &Source) -> (r: figment::Figment)
    requires
        !(s@ is Provided),
    ensures
        merged_from(figment, s@, r),
        s@ matches SourceModel::TomlText(t) ==> text_merge_facts(figment, t, r),
        s@ is Env ==> (figment_plain(figment) ==> figment_plain(r)),
{
    match s {
        Source::TomlText(t) => merge_toml_text(figment, t.as_str()),
        Source::File { path, format } => match format {
            FileFormat::Json => merge_json_file(figment, path.as_str()),
            FileFormat::Yaml => merge_yaml_file(figment, path.as_str()),
            FileFormat::Toml => merge_toml_file(figment, path.as_str()),
        },
        Source::Env { prefix, ignore } => merge_env_vars(figment, prefix.as_str(), ignore),
        Source::Provided => figment,
    }
}

/// The format of the file at `path` (see `format_of`).
pub fn file_format(path: &str) -> (r: FileFormat)
    ensures
        r == format_of(path@),
{
    proof {
        reveal_strlit(".json");
        reveal_strlit(".yaml");
        reveal_strlit(".yml");
    }
    if has_suffix(path, ".json") {
        FileFormat::Json
    } else if has_suffix(path, ".yaml") || has_suffix(path, ".yml") {
        FileFormat::Yaml
    } else {
        FileFormat::Toml
    }
}

/// Whether `path` names its format by one of the extensions `.toml`,
/// `.yaml`, `.yml` or `.json`.
pub open spec fn has_config_extension(path: Seq<char>) -> bool {
    ends_with(path, ".toml"@) || ends_with(path, ".yaml"@) || ends_with(path, ".yml"@) || ends_with(path, ".json"@)
}

/// The files tried for a path without such an extension, in order:
/// `path.toml`, `path.yaml`, `path.yml`, `path.json`.
pub open spec fn extension_candidates(path: Seq<char>) -> Seq<Seq<char>> {
    seq![path + ".toml"@, path + ".yaml"@, path + ".yml"@, path + ".json"@]
}

/// The file loaded for `path`: the path itself when it has a configuration
/// extension; otherwise the first candidate that exists (`present` says
/// which do, see `extension_candidates`), or the path itself when none does.
pub open spec fn file_to_load(path: Seq<char>, present: Seq<bool>) -> Seq<char> {
    if has_config_extension(path) {
        path
    } else if present[0] {
        extension_candidates(path)[0]
    } else if present[1] {
        extension_candidates(path)[1]
    } else if present[2] {
        extension_candidates(path)[2]
    } else if present[3] {
        extension_candidates(path)[3]
    } else {
        path
    }
}

/// The files tried for `path` (see `extension_candidates`).
pub fn extension_candidates_of(path: &str) -> (r: Vec<String>)
    ensures
        r.deep_view() == extension_candidates(path@),
{
    let mut r: Vec<String> = Vec::new();
    r.push(concat(path, ".toml"));
    r.push(concat(path, ".yaml"));
    r.push(concat(path, ".yml"));
    r.push(concat(path, ".json"));
    assert(r.deep_view() =~= extension_candidates(path@));
    r
}

/// The file loaded for `path` (see `file_to_load`).
pub fn resolve_config_file(path: &str, present: &Vec<bool>) -> (r: String)
    requires
        present@.len() == 4,
    ensures
        r@ == file_to_load(path@, present@),
{
    if has_suffix(path, ".toml") || has_suffix(path, ".yaml") || has_suffix(path, ".yml") || has_suffix(path, ".json") {
        return path.to_owned();
    }
    if present[0] {
        concat(path, ".toml")
    } else if present[1] {
        concat(path, ".yaml")
    } else if present[2] {
        concat(path, ".yml")
    } else if present[3] {
        concat(path, ".json")
    } else {
        path.to_owned()
    }
}

/// The format of the file at `path`.
pub open spec fn format_of(path: Seq<char>) -> FileFormat {
    if ends_with(path, ".json"@) {
        FileFormat::Json
    } else if ends_with(path, ".yaml"@) || ends_with(path, ".yml"@) {
        FileFormat::Yaml
    } else {
        FileFormat::Toml
    }
}

/// A file is read by its extension: `.json` as JSON, `.yaml` and `.yml`
/// as YAML, anything else as TOML.
pub proof fn law_format_by_extension(path: Seq<char>)
    ensures
        ends_with(path, ".json"@) ==> format_of(path) == FileFormat::Json,
        ends_with(path, ".yaml"@) ==> format_of(path) == FileFormat::Yaml,
        ends_with(path, ".yml"@) ==> format_of(path) == FileFormat::Yaml,
        ends_with(path, ".toml"@) ==> format_of(path) == FileFormat::Toml,
        !ends_with(path, ".json"@) && !ends_with(path, ".yaml"@) && !ends_with(path, ".yml"@)
            ==> format_of(path) == FileFormat::Toml,
{
    reveal_strlit(".json");
    reveal_strlit(".yaml");
    reveal_strlit(".yml");
    reveal_strlit(".toml");
    assert(".json"@ =~= seq!['.', 'j', 's', 'o', 'n']);
    assert(".yaml"@ =~= seq!['.', 'y', 'a', 'm', 'l']);
    assert(".yml"@ =~= seq!['.', 'y', 'm', 'l']);
    assert(".toml"@ =~= seq!['.', 't', 'o', 'm', 'l']);
    if ends_with(path, ".json"@) {
        lemma_ends_with_at(path, ".json"@, 1);
    }
    if ends_with(path, ".toml"@) {
        lemma_ends_with_at(path, ".toml"@, 1);
        lemma_ends_with_at(path, ".toml"@, 3);
    }
    if ends_with(path, ".yaml"@) {
        lemma_ends_with_at(path, ".yaml"@, 1);
        lemma_ends_with_at(path, ".yaml"@, 3);
    }
    if ends_with(path, ".yml"@) {
        lemma_ends_with_at(path, ".yml"@, 1);
        lemma_ends_with_at(path, ".yml"@, 3);
    }
}

/// The `k`-th character from the end of a path that ends with `suffix` is
/// that of `suffix`.
proof fn lemma_ends_with_at(path: Seq<char>, suffix: Seq<char>, k: int)
    requires
        ends_with(path, suffix),
        0 < k <= suffix.len(),
    ensures
        path[path.len() - k] == suffix[suffix.len() - k],
{
    assert(path.subrange(path.len() - suffix.len(), path.len() as int)[suffix.len() - k] == path[path.len() - k]);
}

/// The number of lines of `s` as `str::lines` counts them.
pub open spec fn line_count(s: Seq<char>) -> nat {
    newline_count(s) + if s.len() > 0 && s.last() != '\n' { 1nat } else { 0nat }
}

/// The number of lines of `s` as `str::lines` counts them.
fn lines_of(s: &str) -> (r: usize)
    ensures
        r == line_count(s@),
{
    let n = s.unicode_len();
    let k = count_newlines(s);
    proof {
        lemma_newline_count_bound(s@);
    }
    if n > 0 && s.get_char(n - 1) != '\n' {
        proof {
            lemma_newline_count_bound(s@.drop_last());
        }
        k + 1
    } else {
        k
    }
}

proof fn lemma_newline_count_bound(s: Seq<char>)
    ensures
        newline_count(s) <= s.len(),
    decreases s.len(),
{
    if s.len() > 0 {
        lemma_newline_count_bound(s.drop_last());
    }
}

/// A configuration builder with a verbosity level and collected debug
/// messages.
pub struct SuperConfig {
    figment: figment::Figment,
    sources: Vec<Source>,
    verbosity: u8,
    step: usize,
    messages: Vec<DebugMessage>,
}

/// The message `m` has the level, provider, text, step and outcome given.
pub open spec fn is_message(
    m: DebugMessage,
    level: u8,
    provider: Seq<char>,
    text: Seq<char>,
    step: Option<usize>,
    success: Option<bool>,
) -> bool {
    m.level == level && m.provider@ == provider && m.message@ == text && m.step == step && m.success == success
}

impl SuperConfig {
    /// The verbosity level as a number.
    pub closed spec fn level(&self) -> u8 {
        self.verbosity
    }

    /// The number of steps taken so far.
    pub closed spec fn steps(&self) -> usize {
        self.step
    }

    /// The debug messages collected so far.
    pub closed spec fn log(&self) -> Seq<DebugMessage> {
        self.messages@
    }

    /// The merged configuration.
    pub closed spec fn merged(&self) -> figment::Figment {
        self.figment
    }

    /// The sources merged so far, in order.
    pub closed spec fn sources(&self) -> Seq<SourceModel> {
        self.sources@.map_values(|s: Source| s@)
    }

    /// The builder with the source `s` merged last.
    fn add_source(self, s: Source) -> (r: SuperConfig)
        requires
            !(s@ is Provided),
        ensures
            merged_from(self.merged(), s@, r.merged()),
            s@ matches SourceModel::TomlText(t) ==> text_merge_facts(self.merged(), t, r.merged()),
            s@ is Env ==> (figment_plain(self.merged()) ==> figment_plain(r.merged())),
            r.sources() == self.sources().push(s@),
            r.level() == self.level(),
            r.steps() == self.steps(),
            r.log() == self.log(),
    {
        let mut c = self;
        c.figment = merge_source(c.figment, &s);
        let ghost before = c.sources@;
        c.sources.push(s);
        assert(c.sources@.map_values(|x: Source| x@) =~= before.map_values(|x: Source| x@).push(s@));
        c
    }

    /// An empty configuration, silent, with no step taken and no message.
    pub fn new() -> (r: SuperConfig)
        ensures
            r.level() == SILENT,
            r.steps() == 0,
            r.log().len() == 0,
            r.sources().len() == 0,
            figment_plain(r.merged()),
    {
        let r = SuperConfig { figment: empty_figment(), sources: Vec::new(), verbosity: SILENT, step: 0, messages: Vec::new() };
        assert(r.sources() =~= Seq::<SourceModel>::empty());
        r
    }

    /// The number of the next step, counting this one.
    pub fn next_step(&mut self) -> (r: usize)
        requires
            old(self).steps() < usize::MAX,
        ensures
            r == old(self).steps() + 1,
            final(self).steps() == r,
            final(self).level() == old(self).level(),
            final(self).log() == old(self).log(),
            final(self).merged() == old(self).merged(),
            final(self).sources() == old(self).sources(),
    {
        self.step = self.step + 1;
        self.step
    }

    /// Sets the verbosity level and records it at the info level.
    pub fn with_verbosity(self, level: u8) -> (r: SuperConfig)
        ensures
            r.level() == level,
            r.steps() == self.steps(),
            r.merged() == self.merged(),
            r.sources() == self.sources(),
            r.log().len() == self.log().len() + 1,
            r.log().subrange(0, self.log().len() as int) == self.log(),
            is_message(
                r.log().last(),
                INFO,
                "verbosity"@,
                "Set verbosity level to: "@ + decimal(level as nat),
                None,
                None,
            ),
    {
        let mut c = self;
        c.verbosity = level;
        let text = concat("Set verbosity level to: ", decimal_text(level as u64).as_str());
        c.debug(INFO, "verbosity", text.as_str());
        c
    }

    /// Verbosity for basic loading progress.
    pub fn with_info_verbosity(self) -> (r: SuperConfig)
        ensures
            r.level() == INFO,
            r.steps() == self.steps(),
            r.merged() == self.merged(),
            r.sources() == self.sources(),
            r.log() == self.log().push(r.log().last()),
            is_message(
                r.log().last(),
                INFO,
                "verbosity"@,
                "Set verbosity level to: "@ + decimal(INFO as nat),
                None,
                None,
            ),
    {
        self.with_verbosity(INFO)
    }

    /// Verbosity for detailed steps.
    pub fn with_debug_verbosity(self) -> (r: SuperConfig)
        ensures
            r.level() == DEBUG,
            r.steps() == self.steps(),
            r.merged() == self.merged(),
            r.sources() == self.sources(),
            r.log() == self.log().push(r.log().last()),
            is_message(
                r.log().last(),
                INFO,
                "verbosity"@,
                "Set verbosity level to: "@ + decimal(DEBUG as nat),
                None,
                None,
            ),
    {
        self.with_verbosity(DEBUG)
    }

    /// Verbosity for full tracing.
    pub fn with_trace_verbosity(self) -> (r: SuperConfig)
        ensures
            r.level() == TRACE,
            r.steps() == self.steps(),
            r.merged() == self.merged(),
            r.sources() == self.sources(),
            r.log() == self.log().push(r.log().last()),
            is_message(
                r.log().last(),
                INFO,
                "verbosity"@,
                "Set verbosity level to: "@ + decimal(TRACE as nat),
                None,
                None,
            ),
    {
        self.with_verbosity(TRACE)
    }

    /// The verbosity level.
    pub fn verbosity(&self) -> (r: VerbosityLevel)
        ensures
            r == level_of_count(self.level()),
    {
        VerbosityLevel::from_cli_args(self.verbosity)
    }

    /// The number of steps taken so far.
    pub fn step_count(&self) -> (r: usize)
        ensures
            r == self.steps(),
    {
        self.step
    }

    /// The debug messages collected so far.
    pub fn debug_messages(&self) -> (r: &Vec<DebugMessage>)
        ensures
            r@ == self.log(),
    {
        &self.messages
    }

    /// The merged configuration, for extracting values.
    pub fn figment(&self) -> (r: &figment::Figment)
        ensures
            *r == self.merged(),
    {
        &self.figment
    }

    /// Merges embedded default configuration text (TOML) and records the
    /// step; at the debug level also its size in lines and bytes, at the
    /// trace level also its first 300 bytes.
    pub fn with_defaults_string(self, content: &str) -> (r: SuperConfig)
        requires
            self.steps() < usize::MAX,
            utf8_len(content@) <= usize::MAX,
            self.level() >= TRACE && utf8_len(content@) > 300 ==> has_byte_prefix(content@, 300),
        ensures
            r.sources() == self.sources().push(SourceModel::TomlText(content@)),
            merged_from(self.merged(), SourceModel::TomlText(content@), r.merged()),
            text_merge_facts(self.merged(), content@, r.merged()),
            r.level() == self.level(),
            r.steps() == self.steps() + 1,
            r.log().len() == self.log().len() + 1 + (if self.level() >= DEBUG { 1int } else { 0 }) + (if self.level()
                >= TRACE { 1int } else { 0 }),
            r.log().subrange(0, self.log().len() as int) == self.log(),
            is_message(
                r.log()[self.log().len() as int],
                INFO,
                "defaults"@,
                "Loading embedded default configuration"@,
                Some(r.steps()),
                None,
            ),
            self.level() >= DEBUG ==> is_message(
                r.log()[self.log().len() + 1int],
                DEBUG,
                "defaults"@,
                "Embedded config: "@ + decimal(line_count(content@)) + " lines, "@ + decimal(utf8_len(content@))
                    + " characters"@,
                None,
                None,
            ),
            self.level() >= TRACE ==> is_message(
                r.log()[self.log().len() + 2int],
                TRACE,
                "defaults"@,
                "Default config content:\n"@ + if utf8_len(content@) > 300 {
                    byte_prefix(content@, 300) + "... ("@ + decimal(utf8_len(content@)) + " chars total)"@
                } else {
                    content@
                },
                None,
                None,
            ),
    {
        let mut c = self;
        let ghost n0 = c.messages@.len();
        let step = c.next_step();
        c.debug_step(INFO, "defaults", step, "Loading embedded default configuration");
        if c.verbosity >= DEBUG {
            let lines = lines_of(content);
            let chars = utf8_length_of(content);
            let a = concat("Embedded config: ", decimal_text(lines as u64).as_str());
            let b = concat(a.as_str(), " lines, ");
            let d = concat(b.as_str(), decimal_text(chars as u64).as_str());
            let text = concat(d.as_str(), " characters");
            c.debug(DEBUG, "defaults", text.as_str());
        }
        if c.verbosity >= TRACE {
            let chars = utf8_length_of(content);
            let preview = if chars > 300 {
                let head = crate::text::byte_prefix_of(content, 300);
                let a = concat(head.as_str(), "... (");
                let b = concat(a.as_str(), decimal_text(chars as u64).as_str());
                concat(b.as_str(), " chars total)")
            } else {
                content.to_owned()
            };
            let text = concat("Default config content:\n", preview.as_str());
            c.debug(TRACE, "defaults", text.as_str());
        }
        c.add_source(Source::TomlText(content.to_owned()))
    }

    /// Whether the merged configuration holds a value at the dotted key `key`
    /// (see `figment_has_key`).
    pub fn has_key(&self, key: &str) -> (r: Result<bool, figment::Error>)
        ensures
            value_found(self.merged(), key@) ==> r matches Ok(true),
            r matches Ok(b) ==> b == value_found(self.merged(), key@),
    {
        figment_has_key(&self.figment, key)
    }

    /// The string under the dotted key `key`, or the error of the extraction.
    pub fn get_string(&self, key: &str) -> (r: Result<String, figment::Error>)
        ensures
            r is Ok <==> extracted_string(self.merged(), key@) is Some,
            r matches Ok(t) ==> extracted_string(self.merged(), key@) == Some(t@),
    {
        extract_string(&self.figment, key)
    }
}

/// `a` joined with `b` the way `Path::join` joins them: `b` when it is
/// absolute, otherwise `a`, a separator unless `a` is empty or ends with one,
/// and `b`.
pub open spec fn path_join(a: Seq<char>, b: Seq<char>) -> Seq<char> {
    if b.len() > 0 && b[0] == '/' {
        b
    } else if a.len() == 0 || a.last() == '/' {
        a + b
    } else {
        a + "/"@ + b
    }
}

/// `a` joined with `b` the way `Path::join` joins them.
pub fn join_path(a: &str, b: &str) -> (r: String)
    ensures
        r@ == path_join(a@, b@),
{
    proof {
        reveal_strlit("/");
        assert("/"@ =~= seq!['/']);
    }
    let n = a.unicode_len();
    if b.unicode_len() > 0 && b.get_char(0) == '/' {
        b.to_owned()
    } else if n == 0 || a.get_char(n - 1) == '/' {
        concat(a, b)
    } else {
        let x = concat(a, "/");
        concat(x.as_str(), b)
    }
}

/// The places a hierarchical configuration for `base` is looked for, as the
/// verbose report lists them; `config_dir` is the user's configuration
/// directory, when there is one.
pub open spec fn hierarchical_paths(base: Seq<char>, config_dir: Option<Seq<char>>) -> Seq<Seq<char>> {
    seq![
        "/etc/"@ + base + "/config.toml"@,
        "/etc/"@ + base + ".toml"@,
        match config_dir {
            Some(d) => path_join(path_join(d, base), "config.toml"@),
            None => "~/.config/<app>/config.toml"@,
        },
        "./"@ + base + ".toml"@,
        "./config/"@ + base + ".toml"@,
    ]
}

/// The places a hierarchical configuration for `base` is looked for (see
/// `hierarchical_paths`).
pub fn hierarchical_candidates(base: &str, config_dir: Option<&str>) -> (r: Vec<String>)
    ensures
        r.deep_view() == hierarchical_paths(base@, match config_dir {
            Some(d) => Some(d@),
            None => None,
        }),
{
    let mut out: Vec<String> = Vec::new();
    let a = concat("/etc/", base);
    out.push(concat(a.as_str(), "/config.toml"));
    out.push(concat(a.as_str(), ".toml"));
    match config_dir {
        Some(d) => {
            let x = join_path(d, base);
            out.push(join_path(x.as_str(), "config.toml"));
        },
        None => out.push("~/.config/<app>/config.toml".to_owned()),
    }
    let b = concat("./", base);
    out.push(concat(b.as_str(), ".toml"));
    let c = concat("./config/", base);
    out.push(concat(c.as_str(), ".toml"));
    assert(out.deep_view() =~= hierarchical_paths(base@, match config_dir {
        Some(d) => Some(d@),
        None => None,
    }));
    out
}

/// What recording command-line overrides adds to the log `log0`, giving
/// `log1`: with overrides (`present`) the step and, at the trace level, their
/// JSON form when there is one; without, the step marked as failed.
pub open spec fn logs_cli(
    log0: Seq<DebugMessage>,
    log1: Seq<DebugMessage>,
    level: u8,
    present: bool,
    pretty_json: Option<String>,
    step: usize,
) -> bool {
    &&& log1.subrange(0, log0.len() as int) == log0
    &&& present ==> {
        &&& log1.len() == log0.len() + 1 + (if level >= TRACE && pretty_json is Some { 1int } else { 0 })
        &&& is_message(log1[log0.len() as int], INFO, "cli"@, "Loading CLI argument overrides"@, Some(step), None)
        &&& level >= TRACE && pretty_json is Some ==> is_message(
            log1[log0.len() + 1int],
            TRACE,
            "cli"@,
            "CLI overrides:\n"@ + pretty_json.unwrap()@,
            None,
            None,
        )
    }
    &&& !present ==> {
        &&& log1.len() == log0.len() + 1
        &&& is_message(log1[log0.len() as int], DEBUG, "cli"@, "No CLI arguments provided"@, Some(step), Some(false))
    }
}

/// What loading the file at `path` adds to the log `log0`, giving `log1`:
/// the step, whether the file exists and, at the trace level, a preview of
/// its content (the first 200 bytes of a longer one, with its length).
pub open spec fn logs_file(
    log0: Seq<DebugMessage>,
    log1: Seq<DebugMessage>,
    level: u8,
    path: Seq<char>,
    exists: bool,
    content: Option<String>,
    step: usize,
) -> bool {
    &&& log1.len() == log0.len() + 2 + (if level >= TRACE && exists && content is Some {
        1int
    } else {
        0
    })
    &&& log1.subrange(0, log0.len() as int) == log0
    &&& is_message(
        log1[log0.len() as int],
        INFO,
        "file"@,
        "Loading configuration file: "@ + path,
        Some(step),
        None,
    )
    &&& is_message(
        log1[log0.len() + 1int],
        DEBUG,
        "file"@,
        (if exists { "File found: "@ } else { "File not found: "@ }) + path,
        Some(step),
        Some(exists),
    )
    &&& level >= TRACE && exists && content is Some ==> is_message(
        log1[log0.len() + 2int],
        TRACE,
        "file"@,
        "File content preview: "@ + if utf8_len(content.unwrap()@) > 200 {
            byte_prefix(content.unwrap()@, 200) + "... ("@ + decimal(utf8_len(content.unwrap()@)) + " chars total)"@
        } else {
            content.unwrap()@
        },
        None,
        None,
    )
}

/// `log1` is `log0` followed by the report on the variables of `vars` whose
/// names start with `prefix`: how many there are (or that there are none),
/// then, at the trace level, each of them with secrets masked.
pub open spec fn reports_env(
    log0: Seq<DebugMessage>,
    log1: Seq<DebugMessage>,
    level: u8,
    prefix: Seq<char>,
    vars: Seq<(Seq<char>, Seq<char>)>,
    step: usize,
) -> bool {
    let mv = vars_with_prefix(vars, prefix);
    &&& log1.subrange(0, log0.len() as int) == log0
    &&& log1.len() == log0.len() + 1 + if mv.len() > 0 && level >= TRACE { mv.len() as int } else { 0 }
    &&& mv.len() == 0 ==> is_message(
        log1[log0.len() as int],
        DEBUG,
        "env"@,
        "No environment variables found with prefix: "@ + prefix,
        Some(step),
        Some(false),
    )
    &&& mv.len() > 0 ==> is_message(
        log1[log0.len() as int],
        DEBUG,
        "env"@,
        "Found "@ + decimal(mv.len()) + " environment variables with prefix: "@ + prefix,
        Some(step),
        Some(true),
    )
    &&& mv.len() > 0 && level >= TRACE ==> forall|i: int|
        0 <= i < mv.len() ==> is_message(
            #[trigger] log1[log0.len() + 1 + i],
            TRACE,
            "env"@,
            "  "@ + mv[i].0 + "="@ + shown_value(mv[i].0, mv[i].1),
            None,
            None,
        )
}

impl SuperConfig {
    /// The builder with another merged configuration; level, steps and
    /// messages stay.
    pub fn with_figment(self, figment: figment::Figment) -> (r: SuperConfig)
        ensures
            r.level() == self.level(),
            r.steps() == self.steps(),
            r.log() == self.log(),
            r.merged() == figment,
            r.sources() == self.sources().push(SourceModel::Provided),
    {
        let mut c = self;
        c.figment = figment;
        let ghost before = c.sources@;
        c.sources.push(Source::Provided);
        assert(c.sources@.map_values(|x: Source| x@) =~= before.map_values(|x: Source| x@).push(SourceModel::Provided));
        c
    }

    /// Records the step of command-line overrides: whether there are any
    /// (`present`) and, at the trace level, their JSON form `pretty_json`
    /// when it could be made. The overrides themselves are merged by the
    /// caller (see `with_figment`).
    pub fn with_cli_opt(self, present: bool, pretty_json: Option<String>) -> (r: SuperConfig)
        requires
            self.steps() < usize::MAX,
        ensures
            r.level() == self.level(),
            r.steps() == self.steps() + 1,
            r.merged() == self.merged(),
            r.sources() == self.sources(),
            logs_cli(self.log(), r.log(), self.level(), present, pretty_json, r.steps()),
    {
        let ghost log0 = self.log();
        let ghost pj = pretty_json;
        let mut c = self;
        let step = c.next_step();
        if present {
            c.debug_step(INFO, "cli", step, "Loading CLI argument overrides");
            if c.verbosity >= TRACE {
                match pretty_json {
                    Some(text) => {
                        let message = concat("CLI overrides:\n", text.as_str());
                        c.debug(TRACE, "cli", message.as_str());
                    },
                    None => {},
                }
            }
        } else {
            c.debug_step_result(DEBUG, "cli", step, "No CLI arguments provided", false);
        }
        assert(c.log().subrange(0, log0.len() as int) == log0);
        assert(logs_cli(log0, c.log(), c.level(), present, pj, c.steps()));
        c
    }

    /// Merges the configuration file at `path` (read as JSON, YAML or TOML by
    /// its extension) and records the step and whether the file exists; at
    /// the trace level also the first 200 bytes of its `content`, when it
    /// exists and could be read.
    pub fn with_file(self, path: &str, exists: bool, content: Option<String>) -> (r: SuperConfig)
        requires
            self.steps() < usize::MAX,
            content matches Some(t) ==> utf8_len(t@) <= usize::MAX && (utf8_len(t@) > 200 ==> has_byte_prefix(t@, 200)),
        ensures
            r.sources() == self.sources().push(SourceModel::File(path@, format_of(path@))),
            merged_from(self.merged(), SourceModel::File(path@, format_of(path@)), r.merged()),
            r.level() == self.level(),
            r.steps() == self.steps() + 1,
            logs_file(self.log(), r.log(), self.level(), path@, exists, content, r.steps()),
    {
        self.with_file_as(path, exists, content, path)
    }

    /// Records the step of loading the configuration file at `path` as
    /// `with_file` does, and merges the file `load` that stands for it (see
    /// `resolve_config_file`), read in the format of its extension.
    pub fn with_file_as(self, path: &str, exists: bool, content: Option<String>, load: &str) -> (r: SuperConfig)
        requires
            self.steps() < usize::MAX,
            content matches Some(t) ==> utf8_len(t@) <= usize::MAX && (utf8_len(t@) > 200 ==> has_byte_prefix(t@, 200)),
        ensures
            r.sources() == self.sources().push(SourceModel::File(load@, format_of(load@))),
            merged_from(self.merged(), SourceModel::File(load@, format_of(load@)), r.merged()),
            r.level() == self.level(),
            r.steps() == self.steps() + 1,
            logs_file(self.log(), r.log(), self.level(), path@, exists, content, r.steps()),
    {
        let ghost log0 = self.log();
        let ghost cont = content;
        let mut c = self;
        let step = c.next_step();
        let loading = concat("Loading configuration file: ", path);
        c.debug_step(INFO, "file", step, loading.as_str());
        if exists {
            let found = concat("File found: ", path);
            c.debug_step_result(DEBUG, "file", step, found.as_str(), true);
        } else {
            let missing = concat("File not found: ", path);
            c.debug_step_result(DEBUG, "file", step, missing.as_str(), false);
        }
        if c.verbosity >= TRACE && exists {
            match content {
                Some(text) => {
                    let size = utf8_length_of(text.as_str());
                    let preview = if size > 200 {
                        let head = crate::text::byte_prefix_of(text.as_str(), 200);
                        let a = concat(head.as_str(), "... (");
                        let b = concat(a.as_str(), decimal_text(size as u64).as_str());
                        concat(b.as_str(), " chars total)")
                    } else {
                        text
                    };
                    let message = concat("File content preview: ", preview.as_str());
                    c.debug(TRACE, "file", message.as_str());
                },
                None => {},
            }
        }
        assert(c.log().subrange(0, log0.len() as int) == log0);
        assert(logs_file(log0, c.log(), c.level(), path@, exists, cont, c.steps()));
        let format = file_format(load);
        c.add_source(Source::File { path: load.to_owned(), format })
    }

    /// Merges the configuration file at `path` when there is one (see
    /// `with_file`); otherwise nothing changes.
    pub fn with_file_opt(self, path: Option<&str>, exists: bool, content: Option<String>) -> (r: SuperConfig)
        requires
            path is Some ==> self.steps() < usize::MAX,
            path is Some ==> (content matches Some(t) ==> utf8_len(t@) <= usize::MAX && (utf8_len(t@) > 200 ==> has_byte_prefix(t@, 200))),
        ensures
            path is None ==> r.level() == self.level() && r.steps() == self.steps() && r.log() == self.log()
                && r.merged() == self.merged() && r.sources() == self.sources(),
            path matches Some(p) ==> {
                &&& r.sources() == self.sources().push(SourceModel::File(p@, format_of(p@)))
                &&& merged_from(self.merged(), SourceModel::File(p@, format_of(p@)), r.merged())
                &&& r.level() == self.level()
                &&& r.steps() == self.steps() + 1
                &&& logs_file(self.log(), r.log(), self.level(), p@, exists, content, r.steps())
            },
    {
        match path {
            Some(p) => self.with_file(p, exists, content),
            None => self,
        }
    }

    /// Records the environment variables of `vars` (all of the process's,
    /// name and value) whose names start with `prefix`.
    fn report_env(&mut self, prefix: &str, vars: &Vec<(String, String)>, step: usize)
        ensures
            final(self).level() == old(self).level(),
            final(self).steps() == old(self).steps(),
            final(self).sources() == old(self).sources(),
            final(self).merged() == old(self).merged(),
            reports_env(old(self).log(), final(self).log(), old(self).level(), prefix@, vars_model(vars@), step),
    {
        let matching = select_vars(prefix, vars);
        let ghost mv = vars_with_prefix(vars_model(vars@), prefix@);
        let n = matching.len();
        if n == 0 {
            let text = concat("No environment variables found with prefix: ", prefix);
            self.debug_step_result(DEBUG, "env", step, text.as_str(), false);
            assert(self.messages@.subrange(0, old(self).messages@.len() as int) =~= old(self).messages@);
        } else {
            let a = concat("Found ", decimal_text(n as u64).as_str());
            let b = concat(a.as_str(), " environment variables with prefix: ");
            let text = concat(b.as_str(), prefix);
            self.debug_step_result(DEBUG, "env", step, text.as_str(), true);
            let ghost after_found = self.messages@;
            assert(after_found.subrange(0, old(self).messages@.len() as int) =~= old(self).messages@);
            if self.verbosity >= TRACE {
                let ghost base = self.messages@.len();
                let mut i: usize = 0;
                while i < n
                    invariant
                        n == matching@.len(),
                        vars_model(matching@) == mv,
                        mv.len() == n,
                        i <= n,
                        base == after_found.len(),
                        self.messages@.len() == base + i,
                        self.messages@.subrange(0, base as int) == after_found,
                        self.verbosity == old(self).verbosity,
                        self.sources() == old(self).sources(),
                        self.merged() == old(self).merged(),
                        self.step == old(self).step,
                        forall|j: int| 0 <= j < i ==> is_message(
                            #[trigger] self.messages@[base + j],
                            TRACE,
                            "env"@,
                            "  "@ + mv[j].0 + "="@ + shown_value(mv[j].0, mv[j].1),
                            None,
                            None,
                        ),
                    decreases n - i,
                {
                    let key = matching[i].0.as_str();
                    let value = matching[i].1.as_str();
                    assert(mv[i as int] == (key@, value@));
                    let shown = if is_secret(key) {
                        "***MASKED***".to_owned()
                    } else {
                        value.to_owned()
                    };
                    let a = concat("  ", key);
                    let b = concat(a.as_str(), "=");
                    let text = concat(b.as_str(), shown.as_str());
                    let ghost before = self.messages@;
                    self.debug(TRACE, "env", text.as_str());
                    assert forall|j: int| 0 <= j < i + 1 implies is_message(
                        #[trigger] self.messages@[base + j],
                        TRACE,
                        "env"@,
                        "  "@ + mv[j].0 + "="@ + shown_value(mv[j].0, mv[j].1),
                        None,
                        None,
                    ) by {
                        if j < i {
                            assert(self.messages@[base + j] == before[base + j]);
                        }
                    }
                    assert(self.messages@.subrange(0, base as int) =~= before.subrange(0, base as int));
                    i = i + 1;
                }
                assert forall|k: int| 0 <= k < mv.len() implies is_message(
                    #[trigger] self.messages@[old(self).messages@.len() + 1 + k],
                    TRACE,
                    "env"@,
                    "  "@ + mv[k].0 + "="@ + shown_value(mv[k].0, mv[k].1),
                    None,
                    None,
                ) by {
                    assert(self.messages@[base + k] == self.messages@[old(self).messages@.len() + 1 + k]);
                }
                assert(self.messages@[old(self).messages@.len() as int] == after_found[old(self).messages@.len() as int]);
                assert(self.messages@.subrange(0, old(self).messages@.len() as int) =~= after_found.subrange(
                    0,
                    old(self).messages@.len() as int,
                ));
                assert(self.messages@.subrange(0, old(self).messages@.len() as int) =~= old(self).messages@);
            }
        }
    }

    /// Merges the environment variables whose names start with `prefix` and
    /// records the step, how many of `vars` (all of the process's variables)
    /// match, and at the trace level each of them, secrets masked.
    pub fn with_env(self, prefix: &str, vars: &Vec<(String, String)>) -> (r: SuperConfig)
        requires
            self.steps() < usize::MAX,
        ensures
            r.sources() == self.sources().push(SourceModel::Env(prefix@, Seq::empty())),
            merged_from(self.merged(), SourceModel::Env(prefix@, Seq::empty()), r.merged()),
            figment_plain(self.merged()) ==> figment_plain(r.merged()),
            r.level() == self.level(),
            r.steps() == self.steps() + 1,
            r.log().subrange(0, self.log().len() as int) == self.log(),
            is_message(
                r.log()[self.log().len() as int],
                INFO,
                "env"@,
                "Loading environment variables with prefix: "@ + prefix@,
                Some(r.steps()),
                None,
            ),
            reports_env(
                self.log().push(r.log()[self.log().len() as int]),
                r.log(),
                self.level(),
                prefix@,
                vars_model(vars@),
                r.steps(),
            ),
    {
        let mut c = self;
        let step = c.next_step();
        let text = concat("Loading environment variables with prefix: ", prefix);
        c.debug_step(INFO, "env", step, text.as_str());
        let ghost mid = c.messages@;
        c.report_env(prefix, vars, step);
        assert(c.messages@.subrange(0, mid.len() as int) == mid);
        assert(c.messages@[mid.len() - 1] == mid[mid.len() - 1]);
        assert(c.messages@.subrange(0, self.messages@.len() as int) =~= mid.subrange(0, self.messages@.len() as int));
        let none: Vec<String> = Vec::new();
        assert(none.deep_view() =~= Seq::<Seq<char>>::empty());
        c.add_source(Source::Env { prefix: prefix.to_owned(), ignore: none })
    }

    /// As `with_env`, but variables whose value reads as empty (see
    /// `blank_value`) are left out.
    pub fn with_env_ignore_empty(self, prefix: &str, vars: &Vec<(String, String)>) -> (r: SuperConfig)
        requires
            self.steps() < usize::MAX,
        ensures
            r.sources() == self.sources().push(SourceModel::Env(prefix@, empty_var_names(vars_model(vars@), prefix@))),
            merged_from(self.merged(), SourceModel::Env(prefix@, empty_var_names(vars_model(vars@), prefix@)), r.merged()),
            figment_plain(self.merged()) ==> figment_plain(r.merged()),
            r.level() == self.level(),
            r.steps() == self.steps() + 1,
            r.log().subrange(0, self.log().len() as int) == self.log(),
            is_message(
                r.log()[self.log().len() as int],
                INFO,
                "env"@,
                "Loading environment variables with prefix: "@ + prefix@ + " (ignore empty)"@,
                Some(r.steps()),
                None,
            ),
            reports_env(
                self.log().push(r.log()[self.log().len() as int]),
                r.log(),
                self.level(),
                prefix@,
                vars_model(vars@),
                r.steps(),
            ),
    {
        let mut c = self;
        let step = c.next_step();
        let a = concat("Loading environment variables with prefix: ", prefix);
        let text = concat(a.as_str(), " (ignore empty)");
        c.debug_step(INFO, "env", step, text.as_str());
        let ghost mid = c.messages@;
        c.report_env(prefix, vars, step);
        assert(c.messages@.subrange(0, mid.len() as int) == mid);
        assert(c.messages@[mid.len() - 1] == mid[mid.len() - 1]);
        assert(c.messages@.subrange(0, self.messages@.len() as int) =~= mid.subrange(0, self.messages@.len() as int));
        let empty = empty_names(prefix, vars);
        c.add_source(Source::Env { prefix: prefix.to_owned(), ignore: empty })
    }

    /// Records the step of a hierarchical configuration for `base_name` and,
    /// at the debug level, each place it is looked for with whether it
    /// exists; `candidates` are those places (see `hierarchical_candidates`)
    /// with that answer.
    pub fn with_hierarchical_config(self, base_name: &str, candidates: &Vec<(String, bool)>) -> (r: SuperConfig)
        requires
            self.steps() < usize::MAX,
        ensures
            r.level() == self.level(),
            r.steps() == self.steps() + 1,
            r.merged() == self.merged(),
            r.sources() == self.sources(),
            r.log().subrange(0, self.log().len() as int) == self.log(),
            r.log().len() == self.log().len() + 1 + if self.level() >= DEBUG { 1 + candidates@.len() } else { 0 },
            is_message(
                r.log()[self.log().len() as int],
                INFO,
                "hierarchical"@,
                "Loading hierarchical config for: "@ + base_name@,
                Some(r.steps()),
                None,
            ),
            self.level() >= DEBUG ==> forall|i: int| 0 <= i < candidates@.len() ==> is_message(
                #[trigger] r.log()[self.log().len() + 2 + i],
                DEBUG,
                "hierarchical"@,
                "  - "@ + candidates@[i].0@,
                None,
                Some(candidates@[i].1),
            ),
    {
        let mut c = self;
        let step = c.next_step();
        let text = concat("Loading hierarchical config for: ", base_name);
        c.debug_step(INFO, "hierarchical", step, text.as_str());
        let ghost after_info = c.messages@;
        if c.verbosity >= DEBUG {
            c.debug(DEBUG, "hierarchical", "Checking hierarchical config paths:");
            let ghost base = c.messages@.len();
            let ghost start = c.messages@;
            let mut i: usize = 0;
            while i < candidates.len()
                invariant
                    i <= candidates@.len(),
                    c.messages@.len() == base + i,
                    base == self.messages@.len() + 2,
                    c.messages@.subrange(0, base as int) == start,
                    start.len() == base,
                    c.verbosity == self.verbosity,
                    c.step == self.step + 1,
                    c.figment == self.figment,
                    c.sources() == self.sources(),
                    forall|j: int| 0 <= j < i ==> is_message(
                        #[trigger] c.messages@[base + j],
                        DEBUG,
                        "hierarchical"@,
                        "  - "@ + candidates@[j].0@,
                        None,
                        Some(candidates@[j].1),
                    ),
                decreases candidates@.len() - i,
            {
                let line = concat("  - ", candidates[i].0.as_str());
                let ghost before = c.messages@;
                c.debug_result(DEBUG, "hierarchical", line.as_str(), candidates[i].1);
                assert forall|j: int| 0 <= j < i + 1 implies is_message(
                    #[trigger] c.messages@[base + j],
                    DEBUG,
                    "hierarchical"@,
                    "  - "@ + candidates@[j].0@,
                    None,
                    Some(candidates@[j].1),
                ) by {
                    if j < i {
                        assert(c.messages@[base + j] == before[base + j]);
                    }
                }
                assert(c.messages@.subrange(0, base as int) =~= before.subrange(0, base as int));
                i = i + 1;
            }
            assert(start[self.messages@.len() as int] == after_info[self.messages@.len() as int]);
            assert(c.messages@[self.messages@.len() as int] == start[self.messages@.len() as int]);
            assert(c.messages@.subrange(0, self.messages@.len() as int) =~= start.subrange(0, self.messages@.len() as int));
        }
        c
    }
}

/// Whether the name of an environment variable marks a secret.
fn is_secret(key: &str) -> (r: bool)
    ensures
        r == is_secret_name(key@),
{
    let k = to_lower(key);
    find_str(k.as_str(), "password").is_some() || find_str(k.as_str(), "secret").is_some()
        || find_str(k.as_str(), "token").is_some() || find_str(k.as_str(), "key").is_some()
}

/// The variables of `vars` whose names start with `prefix`, in order.
fn select_vars(prefix: &str, vars: &Vec<(String, String)>) -> (r: Vec<(String, String)>)
    ensures
        vars_model(r@) == vars_with_prefix(vars_model(vars@), prefix@),
{
    let ghost all = vars_model(vars@);
    let mut out: Vec<(String, String)> = Vec::new();
    let mut i: usize = 0;
    while i < vars.len()
        invariant
            i <= vars@.len(),
            all == vars_model(vars@),
            all.len() == vars@.len(),
            vars_model(out@) == vars_with_prefix(all.subrange(0, i as int), prefix@),
        decreases vars@.len() - i,
    {
        assert(all[i as int] == (vars@[i as int].0@, vars@[i as int].1@));
        assert(all.subrange(0, i + 1).drop_last() =~= all.subrange(0, i as int));
        if has_prefix(vars[i].0.as_str(), prefix) {
            let entry = (vars[i].0.as_str().to_owned(), vars[i].1.as_str().to_owned());
            let ghost before = out@;
            out.push(entry);
            assert(vars_model(out@) =~= vars_model(before).push((entry.0@, entry.1@)));
        }
        i = i + 1;
    }
    assert(all.subrange(0, all.len() as int) =~= all);
    out
}

/// The names, after `prefix`, of the variables of `vars` with an empty
/// value (see `blank_value`).
fn empty_names(prefix: &str, vars: &Vec<(String, String)>) -> (r: Vec<String>)
    ensures
        r.deep_view() == empty_var_names(vars_model(vars@), prefix@),
{
    let ghost all = vars_model(vars@);
    let m = prefix.unicode_len();
    let mut out: Vec<String> = Vec::new();
    let mut i: usize = 0;
    while i < vars.len()
        invariant
            i <= vars@.len(),
            m == prefix@.len(),
            all == vars_model(vars@),
            all.len() == vars@.len(),
            out.deep_view() == empty_var_names(all.subrange(0, i as int), prefix@),
        decreases vars@.len() - i,
    {
        assert(all[i as int] == (vars@[i as int].0@, vars@[i as int].1@));
        assert(all.subrange(0, i + 1).drop_last() =~= all.subrange(0, i as int));
        let key = vars[i].0.as_str();
        let value = vars[i].1.as_str();
        let blank = value.unicode_len() == 0 || str_equal(value, "[]") || str_equal(value, "{}") || str_equal(value, "\"\"");
        if has_prefix(key, prefix) && blank {
            let n = key.unicode_len();
            let rest = substring(key, m, n);
            let ghost before = out.deep_view();
            out.push(rest);
            assert(out.deep_view() =~= before.push(key@.subrange(m as int, n as int)));
        }
        i = i + 1;
    }
    assert(all.subrange(0, all.len() as int) =~= all);
    out
}

impl DebugCollector for SuperConfig {
    /// Records a message.
    fn debug(&mut self, level: u8, provider: &str, message: &str)
        ensures
            final(self).log() == old(self).log().push(final(self).log().last()),
            is_message(final(self).log().last(), level, provider@, message@, None, None),
            final(self).level() == old(self).level(),
            final(self).steps() == old(self).steps(),
            final(self).merged() == old(self).merged(),
            final(self).sources() == old(self).sources(),
    {
        self.messages.push(DebugMessage::new(level, provider, message));
    }

    /// Records a message of a step.
    fn debug_step(&mut self, level: u8, provider: &str, step: usize, message: &str)
        ensures
            final(self).log() == old(self).log().push(final(self).log().last()),
            is_message(final(self).log().last(), level, provider@, message@, Some(step), None),
            final(self).level() == old(self).level(),
            final(self).steps() == old(self).steps(),
            final(self).merged() == old(self).merged(),
            final(self).sources() == old(self).sources(),
    {
        self.messages.push(DebugMessage::new(level, provider, message).with_step(step));
    }

    /// Records a message with an outcome.
    fn debug_result(&mut self, level: u8, provider: &str, message: &str, success: bool)
        ensures
            final(self).log() == old(self).log().push(final(self).log().last()),
            is_message(final(self).log().last(), level, provider@, message@, None, Some(success)),
            final(self).level() == old(self).level(),
            final(self).steps() == old(self).steps(),
            final(self).merged() == old(self).merged(),
            final(self).sources() == old(self).sources(),
    {
        self.messages.push(DebugMessage::new(level, provider, message).with_success(success));
    }

    /// Records a message of a step with an outcome.
    fn debug_step_result(&mut self, level: u8, provider: &str, step: usize, message: &str, success: bool)
        ensures
            final(self).log() == old(self).log().push(final(self).log().last()),
            is_message(final(self).log().last(), level, provider@, message@, Some(step), Some(success)),
            final(self).level() == old(self).level(),
            final(self).steps() == old(self).steps(),
            final(self).merged() == old(self).merged(),
            final(self).sources() == old(self).sources(),
    {
        self.messages.push(DebugMessage::new(level, provider, message).with_step(step).with_success(success));
    }
}

} // verus!
