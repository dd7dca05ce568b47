//! The renderer: one typed result, two renderings. The human-readable
//! rendering is plain text, with a tree for hierarchies; the structured
//! rendering is the JSON envelope.
//!
//! JSON string literals are written by `serde_json`. The two wrappers at
//! the top of this file are trusted; what they claim is said above each.

use vstd::prelude::*;
use vstd::string::StringExecFns;
use crate::engine::info::{InfoData, InfoView};
use crate::engine::scope::{scope_rows, ScopeEntry, ScopeRow};
use crate::engine::signal::{signal_rows, SignalEntry, SignalRow};
use crate::engine::{
    command_name_text, CommandData, CommandResult, DataView, HumanRenderOptions, ResultView,
};
use crate::error::WavepeekError;
use crate::schema_contract::{schema_url, schema_url_text};
use crate::text::{decimal, join, join_strings, last_segment, last_segment_of, push_decimal, string_views};

verus! {

/// `serde_json::Error`. Nothing inside it is seen here.
#[verifier::external_type_specification]
#[verifier::external_body]
pub struct ExJsonError(serde_json::Error);

/// The JSON string literal that `serde_json` writes for a text: the text in
/// double quotes, with the escapes that JSON requires.
pub uninterp spec fn json_string(text: Seq<char>) -> Seq<char>;

/// Calls `serde_json::to_string` on a string slice. It succeeds on every
/// text, since it only writes into a vector of bytes, and what it hands out
/// is the JSON string literal of the text.
#[verifier::external_body]
pub(crate) fn quote(text: &str) -> (r: Result<String, serde_json::Error>)
    ensures
        r is Ok,
        r matches Ok(literal) ==> literal@ == json_string(text@),
{
    serde_json::to_string(text)
}

/// Renders a `serde_json::Error` with its own `Display`. Nothing is
/// claimed of the text.
#[verifier::external_body]
pub(crate) fn describe(error: &serde_json::Error) -> (r: String) {
    error.to_string()
}

/// The name under which a signal is shown: its full path if `abs` is set,
/// its own name otherwise.
pub open spec fn display_name(row: SignalRow, abs: bool) -> Seq<char> {
    if abs {
        row.path
    } else {
        row.name
    }
}

/// The human-readable form of the metadata: three labelled lines.
pub open spec fn info_text(info: InfoView) -> Seq<char> {
    join(
        seq![
            "time_unit: "@ + info.time_unit,
            "time_start: "@ + info.time_start,
            "time_end: "@ + info.time_end,
        ],
        "\n"@,
    )
}

/// The line of a scope in the flat listing: `<depth> <path> kind=<kind>`.
pub open spec fn scope_line(row: ScopeRow) -> Seq<char> {
    decimal(row.depth) + " "@ + row.path + " kind="@ + row.kind
}

/// The line of a signal: `<name-or-path> kind=<kind>`, followed by
/// ` width=<width>` where the signal has a width.
pub open spec fn signal_line(row: SignalRow, abs: bool) -> Seq<char> {
    let head = display_name(row, abs) + " kind="@ + row.kind;
    match row.width {
        Some(width) => head + " width="@ + decimal(width as nat),
        None => head,
    }
}

/// Whether entry `index` is the last among its siblings: every later entry
/// of the same depth stands behind an entry of smaller depth.
pub open spec fn is_last_sibling(rows: Seq<ScopeRow>, index: int) -> bool {
    forall|j: int|
        index < j < rows.len() && (#[trigger] rows[j]).depth == rows[index].depth ==> exists|k: int|
            index < k < j && (#[trigger] rows[k]).depth < rows[index].depth
}

/// The marks that the tree keeps while it draws: before entry `index` is
/// drawn, the mark at level `d` says whether the latest entry drawn at that
/// level was the last among its siblings. Each entry cuts the marks down to
/// its own depth and adds its own mark.
pub open spec fn ancestor_marks(rows: Seq<ScopeRow>, index: int) -> Seq<bool>
    decreases index,
{
    if index <= 0 {
        Seq::empty()
    } else {
        let earlier = ancestor_marks(rows, index - 1);
        let depth = rows[index - 1].depth as int;
        let kept = if depth <= earlier.len() {
            earlier.take(depth)
        } else {
            earlier
        };
        kept.push(is_last_sibling(rows, index - 1))
    }
}

/// What an ancestor at `level` contributes to the indent: blank where it
/// was the last among its siblings, or where no mark stands for it; a
/// vertical bar otherwise.
pub open spec fn ancestor_column(marks: Seq<bool>, level: int) -> Seq<char> {
    if level < marks.len() && !marks[level] {
        "│   "@
    } else {
        "    "@
    }
}

/// The indent of an entry: the columns of its ancestors at the levels
/// 1 up to, but not including, `depth`.
pub open spec fn indent(marks: Seq<bool>, depth: int) -> Seq<char>
    decreases depth,
{
    if depth <= 1 {
        Seq::empty()
    } else {
        indent(marks, depth - 1) + ancestor_column(marks, depth - 1)
    }
}

/// The branch in front of an entry's label.
pub open spec fn branch(last: bool) -> Seq<char> {
    if last {
        "└── "@
    } else {
        "├── "@
    }
}

/// The line of entry `index` in the tree: the label alone at depth 0,
/// otherwise the indent, the branch, and the label. The label is the last
/// segment of the path.
pub open spec fn tree_line(rows: Seq<ScopeRow>, index: int) -> Seq<char> {
    let label = last_segment(rows[index].path, '.');
    if rows[index].depth == 0 {
        label
    } else {
        indent(ancestor_marks(rows, index), rows[index].depth as int) + branch(
            is_last_sibling(rows, index),
        ) + label
    }
}

/// The tree of a list of scopes: one line per entry, in order.
pub open spec fn tree_text(rows: Seq<ScopeRow>) -> Seq<char> {
    join(Seq::new(rows.len(), |i: int| tree_line(rows, i)), "\n"@)
}

/// The human-readable rendering of a result's data.
pub open spec fn human_text(data: DataView, options: HumanRenderOptions) -> Seq<char> {
    match data {
        DataView::Schema(schema) => schema,
        DataView::Info(info) => info_text(info),
        DataView::Scope(rows) => if options.scope_tree {
            tree_text(rows)
        } else {
            join(rows.map_values(|row: ScopeRow| scope_line(row)), "\n"@)
        },
        DataView::Signal(rows) => join(
            rows.map_values(|row: SignalRow| signal_line(row, options.signals_abs)),
            "\n"@,
        ),
    }
}

/// The shape of a walk: the rows begin at depth 0, and each row lies at
/// most one level below the row before it.
pub open spec fn rows_walk_shaped(rows: Seq<ScopeRow>) -> bool {
    &&& rows.len() > 0 ==> rows[0].depth == 0
    &&& forall|i: int|
        0 <= i < rows.len() - 1 ==> (#[trigger] rows[i + 1]).depth <= rows[i].depth + 1
}

/// The index of the nearest row in front of `index` that lies at `depth`,
/// or -1 where there is none. In a walk this is the ancestor of the row at
/// `index` on that level.
pub open spec fn nearest_at_depth(rows: Seq<ScopeRow>, index: int, depth: int) -> int
    decreases index,
{
    if index <= 0 {
        -1
    } else if rows[index - 1].depth == depth {
        index - 1
    } else {
        nearest_at_depth(rows, index - 1, depth)
    }
}

/// The indent of a row as its ancestors give it: for each level from 1 up
/// to, but not including, `depth`, a vertical bar unless the ancestor on
/// that level was the last among its siblings.
pub open spec fn ancestor_indent(rows: Seq<ScopeRow>, index: int, depth: int) -> Seq<char>
    decreases depth,
{
    if depth <= 1 {
        Seq::empty()
    } else {
        let column = if is_last_sibling(rows, nearest_at_depth(rows, index, depth - 1)) {
            "    "@
        } else {
            "│   "@
        };
        ancestor_indent(rows, index, depth - 1) + column
    }
}

/// In a walk the marks that the tree keeps are the marks of the ancestors:
/// before row `index` is drawn there is one mark for each level down to the
/// depth of the row before it, and the mark on a level is that of the
/// nearest row in front that lies on that level.
pub proof fn lemma_marks_follow_ancestors(rows: Seq<ScopeRow>, index: int)
    requires
        rows_walk_shaped(rows),
        0 <= index <= rows.len(),
    ensures
        index == 0 ==> ancestor_marks(rows, index).len() == 0,
        index > 0 ==> ancestor_marks(rows, index).len() == rows[index - 1].depth + 1,
        forall|d: int|
            0 <= d < ancestor_marks(rows, index).len() ==> 0 <= #[trigger] nearest_at_depth(
                rows,
                index,
                d,
            ) < index && rows[nearest_at_depth(rows, index, d)].depth == d,
        forall|d: int|
            0 <= d < ancestor_marks(rows, index).len() ==> #[trigger] ancestor_marks(
                rows,
                index,
            )[d] == is_last_sibling(rows, nearest_at_depth(rows, index, d)),
    decreases index,
{
    if index > 0 {
        lemma_marks_follow_ancestors(rows, index - 1);
        let earlier = ancestor_marks(rows, index - 1);
        let depth = rows[index - 1].depth as int;
        if index - 1 > 0 {
            assert(rows[index - 2 + 1].depth <= rows[index - 2].depth + 1);
        }
        assert(depth <= earlier.len());
        let marks = earlier.take(depth).push(is_last_sibling(rows, index - 1));
        assert(ancestor_marks(rows, index) == marks);
        assert forall|d: int| 0 <= d < marks.len() implies 0 <= #[trigger] nearest_at_depth(
            rows,
            index,
            d,
        ) < index && rows[nearest_at_depth(rows, index, d)].depth == d && marks[d]
            == is_last_sibling(rows, nearest_at_depth(rows, index, d)) by {
            if d < depth {
                assert(marks[d] == earlier[d]);
                assert(0 <= nearest_at_depth(rows, index - 1, d) < index - 1);
                assert(nearest_at_depth(rows, index, d) == nearest_at_depth(rows, index - 1, d));
            } else {
                assert(nearest_at_depth(rows, index, d) == index - 1);
            }
        }
    }
}

/// In a walk the indent drawn from the marks is the indent that the
/// ancestors give.
proof fn lemma_indent_follows_ancestors(rows: Seq<ScopeRow>, index: int, depth: int)
    requires
        rows_walk_shaped(rows),
        0 <= index <= rows.len(),
        depth <= ancestor_marks(rows, index).len(),
    ensures
        indent(ancestor_marks(rows, index), depth) == ancestor_indent(rows, index, depth),
    decreases depth,
{
    if depth > 1 {
        lemma_indent_follows_ancestors(rows, index, depth - 1);
        lemma_marks_follow_ancestors(rows, index);
        let marks = ancestor_marks(rows, index);
        assert(marks[depth - 1] == is_last_sibling(
            rows,
            nearest_at_depth(rows, index, depth - 1),
        ));
    }
}

/// In a walk every row below depth 0 is drawn as its ancestors give it:
/// an ancestor contributes a vertical bar unless it was the last among its
/// siblings, and the row itself is drawn behind the branch for a last
/// sibling or the branch for one that has siblings behind it.
pub proof fn law_tree_line_follows_ancestors(rows: Seq<ScopeRow>, index: int)
    requires
        rows_walk_shaped(rows),
        0 <= index < rows.len(),
        rows[index].depth > 0,
    ensures
        tree_line(rows, index) == ancestor_indent(rows, index, rows[index].depth as int) + branch(
            is_last_sibling(rows, index),
        ) + last_segment(rows[index].path, '.'),
{
    assert(index > 0);
    assert(rows[index - 1 + 1].depth <= rows[index - 1].depth + 1);
    lemma_marks_follow_ancestors(rows, index);
    lemma_indent_follows_ancestors(rows, index, rows[index].depth as int);
}

/// The name under which a signal is shown.
pub fn signal_display_name(entry: &SignalEntry, abs: bool) -> (r: &str)
    ensures
        r@ == display_name(entry@, abs),
{
    if abs {
        entry.path.as_str()
    } else {
        entry.name.as_str()
    }
}

/// Whether the entry at `index` is the last among its siblings in a
/// depth-first sequence.
pub fn scope_entry_is_last_sibling(scopes: &Vec<ScopeEntry>, index: usize) -> (r: bool)
    requires
        index < scopes.len(),
    ensures
        r == is_last_sibling(scope_rows(scopes@), index as int),
{
    let ghost rows = scope_rows(scopes@);
    let depth = scopes[index].depth;
    let mut next: usize = index + 1;
    while next < scopes.len()
        invariant
            index < next <= scopes.len(),
            rows == scope_rows(scopes@),
            depth == scopes@[index as int].depth,
            forall|k: int| index < k < next ==> (#[trigger] rows[k]).depth > depth,
        decreases scopes.len() - next,
    {
        if scopes[next].depth < depth {
            proof {
                assert(rows[next as int].depth < rows[index as int].depth);
                assert forall|j: int|
                    index < j < rows.len() && (#[trigger] rows[j]).depth
                        == rows[index as int].depth implies exists|k: int|
                    index < k < j && (#[trigger] rows[k]).depth < rows[index as int].depth by {
                    if j < next {
                        assert(rows[j].depth > depth);
                    } else {
                        assert(index < next < j && rows[next as int].depth < rows[index as int].depth);
                    }
                }
            }
            return true;
        }
        if scopes[next].depth == depth {
            proof {
                let j = next as int;
                assert(rows[j].depth == rows[index as int].depth);
                assert forall|k: int| index < k < j implies !((#[trigger] rows[k]).depth
                    < rows[index as int].depth) by {
                    assert(rows[k].depth > depth);
                }
            }
            return false;
        }
        next += 1;
    }
    proof {
        assert forall|j: int|
            index < j < rows.len() && (#[trigger] rows[j]).depth
                == rows[index as int].depth implies exists|k: int|
            index < k < j && (#[trigger] rows[k]).depth < rows[index as int].depth by {
            assert(rows[j].depth > depth);
        }
    }
    true
}

/// Draws a list of scopes as a tree, in the style of a directory tree.
pub fn render_scope_tree(scopes: &Vec<ScopeEntry>) -> (r: String)
    ensures
        r@ == tree_text(scope_rows(scopes@)),
{
    let ghost rows = scope_rows(scopes@);
    let mut lines: Vec<String> = Vec::new();
    let mut ancestor_last: Vec<bool> = Vec::new();
    let mut index: usize = 0;
    while index < scopes.len()
        invariant
            0 <= index <= scopes.len(),
            rows == scope_rows(scopes@),
            lines@.len() == index,
            forall|k: int| 0 <= k < index ==> (#[trigger] lines@[k])@ == tree_line(rows, k),
            ancestor_last@ == ancestor_marks(rows, index as int),
        decreases scopes.len() - index,
    {
        let entry = &scopes[index];
        let label = last_segment_of(entry.path.as_str(), '.');
        let is_last = scope_entry_is_last_sibling(scopes, index);
        proof {
            assert(rows[index as int] == entry@);
        }
        if entry.depth == 0 {
            lines.push(label);
        } else {
            let mut line = String::new();
            let mut depth: usize = 1;
            while depth < entry.depth
                invariant
                    1 <= depth <= entry.depth,
                    line@ == indent(ancestor_last@, depth as int),
                decreases entry.depth - depth,
            {
                let ancestor_is_last = if depth < ancestor_last.len() {
                    ancestor_last[depth]
                } else {
                    true
                };
                if ancestor_is_last {
                    line.append("    ");
                } else {
                    line.append("│   ");
                }
                depth += 1;
            }
            if is_last {
                line.append("└── ");
            } else {
                line.append("├── ");
            }
            line.append(label.as_str());
            lines.push(line);
        }
        ancestor_last.truncate(entry.depth);
        ancestor_last.push(is_last);
        proof {
            let earlier = ancestor_marks(rows, index as int);
            if entry.depth <= earlier.len() {
                assert(earlier.subrange(0, entry.depth as int) =~= earlier.take(entry.depth as int));
            }
        }
        index += 1;
    }
    proof {
        assert(string_views(lines@) =~= Seq::new(rows.len(), |i: int| tree_line(rows, i)));
    }
    join_strings(&lines, "\n")
}

/// Renders the data of a result for a human reader.
pub fn render_human(data: &CommandData, options: HumanRenderOptions) -> (r: String)
    ensures
        r@ == human_text(data@, options),
{
    match data {
        CommandData::Schema(schema) => schema.clone(),
        CommandData::Info(info) => {
            let mut lines: Vec<String> = Vec::new();
            let mut unit = String::from_str("time_unit: ");
            unit.append(info.time_unit.as_str());
            lines.push(unit);
            let mut start = String::from_str("time_start: ");
            start.append(info.time_start.as_str());
            lines.push(start);
            let mut end = String::from_str("time_end: ");
            end.append(info.time_end.as_str());
            lines.push(end);
            proof {
                assert(string_views(lines@) =~= seq![
                    "time_unit: "@ + info@.time_unit,
                    "time_start: "@ + info@.time_start,
                    "time_end: "@ + info@.time_end,
                ]);
            }
            join_strings(&lines, "\n")
        },
        CommandData::Scope(scopes) => {
            if options.scope_tree {
                render_scope_tree(scopes)
            } else {
                let ghost rows = scope_rows(scopes@);
                let mut lines: Vec<String> = Vec::new();
                let mut i: usize = 0;
                while i < scopes.len()
                    invariant
                        0 <= i <= scopes.len(),
                        rows == scope_rows(scopes@),
                        lines@.len() == i,
                        forall|k: int|
                            0 <= k < i ==> (#[trigger] lines@[k])@ == scope_line(rows[k]),
                    decreases scopes.len() - i,
                {
                    let entry = &scopes[i];
                    let mut line = String::new();
                    push_decimal(&mut line, entry.depth as u64);
                    line.append(" ");
                    line.append(entry.path.as_str());
                    line.append(" kind=");
                    line.append(entry.kind.as_str());
                    proof {
                        assert(rows[i as int] == entry@);
                        assert(line@ =~= scope_line(entry@));
                    }
                    lines.push(line);
                    i += 1;
                }
                proof {
                    assert(string_views(lines@) =~= rows.map_values(|row: ScopeRow| scope_line(row)));
                }
                join_strings(&lines, "\n")
            }
        },
        CommandData::Signal(signals) => {
            let ghost rows = signal_rows(signals@);
            let mut lines: Vec<String> = Vec::new();
            let mut i: usize = 0;
            while i < signals.len()
                invariant
                    0 <= i <= signals.len(),
                    rows == signal_rows(signals@),
                    lines@.len() == i,
                    forall|k: int|
                        0 <= k < i ==> (#[trigger] lines@[k])@ == signal_line(
                            rows[k],
                            options.signals_abs,
                        ),
                decreases signals.len() - i,
            {
                let entry = &signals[i];
                let mut line = String::from_str(signal_display_name(entry, options.signals_abs));
                line.append(" kind=");
                line.append(entry.kind.as_str());
                match entry.width {
                    Some(width) => {
                        line.append(" width=");
                        push_decimal(&mut line, width as u64);
                    },
                    None => {},
                }
                proof {
                    assert(rows[i as int] == entry@);
                    assert(line@ =~= signal_line(entry@, options.signals_abs));
                }
                lines.push(line);
                i += 1;
            }
            proof {
                assert(string_views(lines@) =~= rows.map_values(
                    |row: SignalRow| signal_line(row, options.signals_abs),
                ));
            }
            join_strings(&lines, "\n")
        },
    }
}

/// A JSON array of items that are already JSON texts.
pub open spec fn array_json(items: Seq<Seq<char>>) -> Seq<char> {
    "["@ + join(items, ","@) + "]"@
}

/// The JSON object of the metadata.
pub open spec fn info_json(info: InfoView) -> Seq<char> {
    "{\"time_unit\":"@ + json_string(info.time_unit) + ",\"time_start\":"@ + json_string(
        info.time_start,
    ) + ",\"time_end\":"@ + json_string(info.time_end) + "}"@
}

/// The JSON object of a scope.
pub open spec fn scope_json(row: ScopeRow) -> Seq<char> {
    "{\"path\":"@ + json_string(row.path) + ",\"depth\":"@ + decimal(row.depth) + ",\"kind\":"@
        + json_string(row.kind) + "}"@
}

/// The JSON object of a signal. A signal without a width has no `width`
/// member at all.
pub open spec fn signal_json(row: SignalRow) -> Seq<char> {
    let head = "{\"name\":"@ + json_string(row.name) + ",\"path\":"@ + json_string(row.path)
        + ",\"kind\":"@ + json_string(row.kind);
    match row.width {
        Some(width) => head + ",\"width\":"@ + decimal(width as nat) + "}"@,
        None => head + "}"@,
    }
}

/// The JSON text of a result's data.
pub open spec fn data_json(data: DataView) -> Seq<char> {
    match data {
        DataView::Schema(schema) => json_string(schema),
        DataView::Info(info) => info_json(info),
        DataView::Scope(rows) => array_json(rows.map_values(|row: ScopeRow| scope_json(row))),
        DataView::Signal(rows) => array_json(rows.map_values(|row: SignalRow| signal_json(row))),
    }
}

/// The envelope that every structured output has: the identifier of the
/// schema, the name of the command, the data and the warnings.
#[derive(Debug)]
pub struct OutputEnvelope {
    /// The identifier of the schema, written as `$schema`.
    pub schema: &'static str,
    /// The name of the command that produced the data.
    pub command: String,
    /// The data.
    pub data: CommandData,
    /// The warnings.
    pub warnings: Vec<String>,
}

/// The mathematical value of an `OutputEnvelope`.
pub struct EnvelopeView {
    pub schema: Seq<char>,
    pub command: Seq<char>,
    pub data: DataView,
    pub warnings: Seq<Seq<char>>,
}

impl View for OutputEnvelope {
    type V = EnvelopeView;

    open spec fn view(&self) -> EnvelopeView {
        EnvelopeView {
            schema: self.schema@,
            command: self.command@,
            data: self.data@,
            warnings: string_views(self.warnings@),
        }
    }
}

/// The envelope of a result.
pub open spec fn envelope_of(result: ResultView) -> EnvelopeView {
    EnvelopeView {
        schema: schema_url_text(),
        command: command_name_text(result.command),
        data: result.data,
        warnings: result.warnings,
    }
}

/// The JSON text of an envelope: one object with the members `$schema`,
/// `command`, `data` and `warnings`, in this order.
pub open spec fn envelope_json(envelope: EnvelopeView) -> Seq<char> {
    "{\"$schema\":"@ + json_string(envelope.schema) + ",\"command\":"@ + json_string(
        envelope.command,
    ) + ",\"data\":"@ + data_json(envelope.data) + ",\"warnings\":"@ + array_json(
        envelope.warnings.map_values(|warning: Seq<char>| json_string(warning)),
    ) + "}"@
}

/// The JSON string literal of `text`. Should the writer ever refuse a
/// text, the refusal would come out as an Internal error; it never does.
fn json_literal(text: &str) -> (r: Result<String, WavepeekError>)
    ensures
        r matches Ok(literal) && literal@ == json_string(text@),
{
    match quote(text) {
        Ok(literal) => Ok(literal),
        Err(error) => {
            let detail = describe(&error);
            let mut message = String::from_str("failed to serialize output: ");
            message.append(detail.as_str());
            Err(WavepeekError::Internal(message))
        },
    }
}

/// Appends one member of a JSON object: `lead`, which is the punctuation
/// and the quoted key, and then the JSON string literal of `text`.
fn push_member(out: &mut String, lead: &str, text: &str) -> (r: Result<(), WavepeekError>)
    ensures
        r is Ok,
        final(out)@ == old(out)@ + lead@ + json_string(text@),
{
    match json_literal(text) {
        Ok(literal) => {
            out.append(lead);
            out.append(literal.as_str());
            Ok(())
        },
        Err(error) => Err(error),
    }
}

/// A list of JSON texts as a JSON array.
fn render_array(items: &Vec<String>) -> (r: String)
    ensures
        r@ == array_json(string_views(items@)),
{
    let mut out = String::from_str("[");
    let body = join_strings(items, ",");
    out.append(body.as_str());
    out.append("]");
    out
}

fn render_info_json(info: &InfoData) -> (r: Result<String, WavepeekError>)
    ensures
        r matches Ok(text) && text@ == info_json(info@),
{
    let mut out = String::new();
    match push_member(&mut out, "{\"time_unit\":", info.time_unit.as_str()) {
        Err(error) => {
            return Err(error);
        },
        Ok(()) => {},
    }
    match push_member(&mut out, ",\"time_start\":", info.time_start.as_str()) {
        Err(error) => {
            return Err(error);
        },
        Ok(()) => {},
    }
    match push_member(&mut out, ",\"time_end\":", info.time_end.as_str()) {
        Err(error) => {
            return Err(error);
        },
        Ok(()) => {},
    }
    out.append("}");
    proof {
        assert(out@ =~= info_json(info@));
    }
    Ok(out)
}

fn render_scope_json(entry: &ScopeEntry) -> (r: Result<String, WavepeekError>)
    ensures
        r matches Ok(text) && text@ == scope_json(entry@),
{
    let mut out = String::new();
    match push_member(&mut out, "{\"path\":", entry.path.as_str()) {
        Err(error) => {
            return Err(error);
        },
        Ok(()) => {},
    }
    out.append(",\"depth\":");
    push_decimal(&mut out, entry.depth as u64);
    match push_member(&mut out, ",\"kind\":", entry.kind.as_str()) {
        Err(error) => {
            return Err(error);
        },
        Ok(()) => {},
    }
    out.append("}");
    proof {
        assert(out@ =~= scope_json(entry@));
    }
    Ok(out)
}

fn render_signal_json(entry: &SignalEntry) -> (r: Result<String, WavepeekError>)
    ensures
        r matches Ok(text) && text@ == signal_json(entry@),
{
    let mut out = String::new();
    match push_member(&mut out, "{\"name\":", entry.name.as_str()) {
        Err(error) => {
            return Err(error);
        },
        Ok(()) => {},
    }
    match push_member(&mut out, ",\"path\":", entry.path.as_str()) {
        Err(error) => {
            return Err(error);
        },
        Ok(()) => {},
    }
    match push_member(&mut out, ",\"kind\":", entry.kind.as_str()) {
        Err(error) => {
            return Err(error);
        },
        Ok(()) => {},
    }
    match entry.width {
        Some(width) => {
            out.append(",\"width\":");
            push_decimal(&mut out, width as u64);
        },
        None => {},
    }
    out.append("}");
    proof {
        assert(out@ =~= signal_json(entry@));
    }
    Ok(out)
}

fn render_data_json(data: &CommandData) -> (r: Result<String, WavepeekError>)
    ensures
        r matches Ok(text) && text@ == data_json(data@),
{
    match data {
        CommandData::Schema(schema) => json_literal(schema.as_str()),
        CommandData::Info(info) => render_info_json(info),
        CommandData::Scope(scopes) => {
            let ghost rows = scope_rows(scopes@);
            let mut items: Vec<String> = Vec::new();
            let mut i: usize = 0;
            while i < scopes.len()
                invariant
                    0 <= i <= scopes.len(),
                    rows == scope_rows(scopes@),
                    items@.len() == i,
                    forall|k: int| 0 <= k < i ==> (#[trigger] items@[k])@ == scope_json(rows[k]),
                decreases scopes.len() - i,
            {
                match render_scope_json(&scopes[i]) {
                    Err(error) => {
                        return Err(error);
                    },
                    Ok(item) => {
                        items.push(item);
                    },
                }
                i += 1;
            }
            proof {
                assert(string_views(items@) =~= rows.map_values(|row: ScopeRow| scope_json(row)));
            }
            Ok(render_array(&items))
        },
        CommandData::Signal(signals) => {
            let ghost rows = signal_rows(signals@);
            let mut items: Vec<String> = Vec::new();
            let mut i: usize = 0;
            while i < signals.len()
                invariant
                    0 <= i <= signals.len(),
                    rows == signal_rows(signals@),
                    items@.len() == i,
                    forall|k: int| 0 <= k < i ==> (#[trigger] items@[k])@ == signal_json(rows[k]),
                decreases signals.len() - i,
            {
                match render_signal_json(&signals[i]) {
                    Err(error) => {
                        return Err(error);
                    },
                    Ok(item) => {
                        items.push(item);
                    },
                }
                i += 1;
            }
            proof {
                assert(string_views(items@) =~= rows.map_values(|row: SignalRow| signal_json(row)));
            }
            Ok(render_array(&items))
        },
    }
}

impl OutputEnvelope {
    /// The envelope of the data and the warnings of the command `command`,
    /// under the identifier of the schema.
    pub fn with_warnings(command: &str, data: CommandData, warnings: Vec<String>) -> (r: Self)
        ensures
            r@ == (EnvelopeView {
                schema: schema_url_text(),
                command: command@,
                data: data@,
                warnings: string_views(warnings@),
            }),
    {
        OutputEnvelope { schema: schema_url(), command: String::from_str(command), data, warnings }
    }

    /// Writes the envelope as JSON, on a single line. It always succeeds.
    pub fn to_json(&self) -> (r: Result<String, WavepeekError>)
        ensures
            r matches Ok(text) && text@ == envelope_json(self@),
    {
        let mut out = String::new();
        match push_member(&mut out, "{\"$schema\":", self.schema) {
            Err(error) => {
                return Err(error);
            },
            Ok(()) => {},
        }
        match push_member(&mut out, ",\"command\":", self.command.as_str()) {
            Err(error) => {
                return Err(error);
            },
            Ok(()) => {},
        }
        let data = match render_data_json(&self.data) {
            Err(error) => {
                return Err(error);
            },
            Ok(data) => data,
        };
        out.append(",\"data\":");
        out.append(data.as_str());
        let ghost warnings = string_views(self.warnings@);
        let mut items: Vec<String> = Vec::new();
        let mut i: usize = 0;
        while i < self.warnings.len()
            invariant
                0 <= i <= self.warnings.len(),
                warnings == string_views(self.warnings@),
                items@.len() == i,
                forall|k: int| 0 <= k < i ==> (#[trigger] items@[k])@ == json_string(warnings[k]),
            decreases self.warnings.len() - i,
        {
            match json_literal(self.warnings[i].as_str()) {
                Err(error) => {
                    return Err(error);
                },
                Ok(item) => {
                    items.push(item);
                },
            }
            i += 1;
        }
        proof {
            assert(string_views(items@) =~= warnings.map_values(
                |warning: Seq<char>| json_string(warning),
            ));
        }
        let listed = render_array(&items);
        out.append(",\"warnings\":");
        out.append(listed.as_str());
        out.append("}");
        proof {
            assert(out@ =~= envelope_json(self@));
        }
        Ok(out)
    }
}

/// Renders a result as the structured envelope, on a single line. It
/// always succeeds.
pub fn render_json(result: CommandResult) -> (r: Result<String, WavepeekError>)
    ensures
        r matches Ok(text) && text@ == envelope_json(envelope_of(result@)),
{
    let envelope = OutputEnvelope::with_warnings(
        result.command.as_str(),
        result.data,
        result.warnings,
    );
    envelope.to_json()
}

/// What a result puts on the two output streams.
#[derive(Debug)]
pub struct Rendered {
    /// The text for the primary output stream.
    pub primary: String,
    /// The text for the diagnostic output stream.
    pub diagnostics: String,
}

/// The mathematical value of a `Rendered`.
pub struct RenderedView {
    pub primary: Seq<char>,
    pub diagnostics: Seq<char>,
}

impl View for Rendered {
    type V = RenderedView;

    open spec fn view(&self) -> RenderedView {
        RenderedView { primary: self.primary@, diagnostics: self.diagnostics@ }
    }
}

/// A text as it is printed: nothing for the empty text, the text as it
/// stands where it ends in a line feed, and with a line feed added
/// otherwise.
pub open spec fn printed(text: Seq<char>) -> Seq<char> {
    if text.len() == 0 || text.last() == '\n' {
        text
    } else {
        text.push('\n')
    }
}

/// The warnings as diagnostic lines: each on a line of its own, behind
/// `warning: `.
pub open spec fn warning_lines(warnings: Seq<Seq<char>>) -> Seq<char>
    decreases warnings.len(),
{
    if warnings.len() == 0 {
        Seq::empty()
    } else {
        warning_lines(warnings.drop_last()) + "warning: "@ + warnings.last() + "\n"@
    }
}

/// The human-readable output of a result: the data on the primary stream,
/// the warnings on the diagnostic stream.
pub open spec fn human_output(result: ResultView) -> RenderedView {
    RenderedView {
        primary: printed(human_text(result.data, result.human_options)),
        diagnostics: warning_lines(result.warnings),
    }
}

/// The structured output of a result: the envelope on a line of its own
/// on the primary stream, and nothing on the diagnostic stream.
pub open spec fn structured_output(result: ResultView) -> RenderedView {
    RenderedView {
        primary: envelope_json(envelope_of(result)).push('\n'),
        diagnostics: Seq::empty(),
    }
}

/// The output of a result in the mode that the result asks for.
pub open spec fn output_of(result: ResultView) -> RenderedView {
    if result.json {
        structured_output(result)
    } else {
        human_output(result)
    }
}

/// Renders a result for the two output streams, in the mode that its flag
/// selects. It always succeeds.
pub fn render(result: CommandResult) -> (r: Result<Rendered, WavepeekError>)
    ensures
        r matches Ok(rendered) && rendered@ == output_of(result@),
{
    if !result.json {
        let mut primary = render_human(&result.data, result.human_options);
        let chars = crate::text::to_chars(primary.as_str());
        if chars.len() > 0 && chars[chars.len() - 1] != '\n' {
            primary.push('\n');
        }
        let ghost warnings = string_views(result.warnings@);
        let mut diagnostics = String::new();
        let mut i: usize = 0;
        while i < result.warnings.len()
            invariant
                0 <= i <= result.warnings.len(),
                warnings == string_views(result.warnings@),
                diagnostics@ == warning_lines(warnings.take(i as int)),
            decreases result.warnings.len() - i,
        {
            diagnostics.append("warning: ");
            diagnostics.append(result.warnings[i].as_str());
            diagnostics.append("\n");
            proof {
                assert(warnings.take(i + 1).drop_last() =~= warnings.take(i as int));
                assert(warnings.take(i + 1).last() == result.warnings@[i as int]@);
            }
            i += 1;
        }
        proof {
            assert(warnings.take(result.warnings.len() as int) =~= warnings);
        }
        Ok(Rendered { primary, diagnostics })
    } else {
        match render_json(result) {
            Err(error) => Err(error),
            Ok(mut primary) => {
                primary.push('\n');
                Ok(Rendered { primary, diagnostics: String::new() })
            },
        }
    }
}

} // verus!
