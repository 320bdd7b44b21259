//! What surrounds a merge: which files of a directory are read, how a
//! backup is named, and what is said of the result.

use crate::config::{records, KubeConfig, KubeConfigView};
use crate::text::{
    chars_of, contains_chars, decimal, decimal_text, ends_with_after_stem, has_suffix_after_stem,
    occurs_in,
};
use vstd::prelude::*;

verus! {

/// A file name with the extension `yaml` or `yml`: a stem of at least one
/// character, a dot, and the extension.
pub open spec fn is_yaml_name(file_name: Seq<char>) -> bool {
    ends_with_after_stem(file_name, ".yaml"@) || ends_with_after_stem(file_name, ".yml"@)
}

/// Some pattern of `patterns` stands in `file_name`.
pub open spec fn excluded_by(file_name: Seq<char>, patterns: Seq<String>) -> bool {
    exists|i: int| 0 <= i < patterns.len() && occurs_in(file_name, (#[trigger] patterns[i])@)
}

/// Whether the file called `file_name` is a YAML file by its extension.
/// `file_name` is the last component of a path, without its directory.
pub fn is_yaml_file(file_name: &str) -> (yaml: bool)
    ensures
        yaml == is_yaml_name(file_name@),
{
    let name = chars_of(file_name);
    has_suffix_after_stem(&name, &chars_of(".yaml")) || has_suffix_after_stem(
        &name,
        &chars_of(".yml"),
    )
}

/// Whether one of `exclude_patterns` stands in `file_name`, the last
/// component of a path.
pub fn should_exclude(file_name: &str, exclude_patterns: &[String]) -> (excluded: bool)
    ensures
        excluded == excluded_by(file_name@, exclude_patterns@),
{
    let name = chars_of(file_name);
    let mut i: usize = 0;
    while i < exclude_patterns.len()
        invariant
            i <= exclude_patterns@.len(),
            name@ == file_name@,
            forall|j: int|
                0 <= j < i ==> !occurs_in(file_name@, (#[trigger] exclude_patterns@[j])@),
        decreases exclude_patterns@.len() - i,
    {
        let pattern = chars_of(exclude_patterns[i].as_str());
        if contains_chars(&name, &pattern) {
            return true;
        }
        i += 1;
    }
    false
}

/// The name under which `output_file` is kept before it is overwritten.
pub open spec fn backup_name(output_file: Seq<char>, timestamp: Seq<char>) -> Seq<char> {
    output_file + ".backup."@ + timestamp
}

/// The name of the backup of `output_file` taken at `timestamp`.
pub fn backup_file_name(output_file: &str, timestamp: &str) -> (name: String)
    ensures
        name@ == backup_name(output_file@, timestamp@),
{
    let mut name = String::from_str(output_file);
    name.append(".backup.");
    name.append(timestamp);
    name
}

/// The line that counts the records of one category.
pub open spec fn count_line(count: nat, category: Seq<char>) -> Seq<char> {
    "  - "@ + decimal_text(count) + " "@ + category
}

/// The line that names the current context.
pub open spec fn current_context_line(current_context: Seq<char>) -> Seq<char> {
    if current_context.len() > 0 {
        "  - Current context: "@ + current_context
    } else {
        "  - No current context set"@
    }
}

/// What is said of a merged document, line by line.
pub open spec fn summary(doc: KubeConfigView) -> Seq<Seq<char>> {
    seq![
        "Merged config contains:"@,
        count_line(doc.clusters.len(), "clusters"@),
        count_line(doc.contexts.len(), "contexts"@),
        count_line(doc.users.len(), "users"@),
        current_context_line(doc.current_context),
    ]
}

/// The number of records of a category that may be absent.
fn category_len<T>(category: &Option<Vec<T>>) -> (n: usize)
    ensures
        n == records(*category).len(),
{
    match category {
        Some(items) => items.len(),
        None => 0,
    }
}

/// The line that counts `count` records of `category`.
fn count_text(count: usize, category: &str) -> (line: String)
    ensures
        line@ == count_line(count as nat, category@),
{
    let mut line = String::from_str("  - ");
    line.append(decimal(count).as_str());
    line.append(" ");
    line.append(category);
    line
}

/// The views of a list of lines.
pub open spec fn line_views(lines: Seq<String>) -> Seq<Seq<char>> {
    lines.map_values(|line: String| line@)
}

/// The summary of a merged document: how many clusters, contexts and users
/// it holds, and which context it selects.
pub fn summary_lines(config: &KubeConfig) -> (lines: Vec<String>)
    ensures
        line_views(lines@) == summary(config@),
{
    let mut lines: Vec<String> = Vec::new();
    lines.push(String::from_str("Merged config contains:"));
    lines.push(count_text(category_len(&config.clusters), "clusters"));
    lines.push(count_text(category_len(&config.contexts), "contexts"));
    lines.push(count_text(category_len(&config.users), "users"));
    if !config.current_context.as_str().is_empty() {
        let mut line = String::from_str("  - Current context: ");
        line.append(config.current_context.as_str());
        lines.push(line);
    } else {
        lines.push(String::from_str("  - No current context set"));
    }
    lines
}

} // verus!
