//! Markdown and HTML database dictionaries.

use vstd::prelude::*;
use crate::labels::{
    escape_html_seq, markdown_cell, markdown_cell_seq, push_escape_html, yes_no, Labels,
};
use crate::model::{views, Column, DatabaseSchema, Index, Table};
use crate::naming::{anchor_name, anchor_seq, is_pk, is_primary_key};
use crate::text::{dec, join_seq, push_dec, push_str};

verus! {

/// Joining one more piece appends the separator and the piece.
pub proof fn lemma_join_take(parts: Seq<Seq<char>>, sep: Seq<char>, i: int)
    requires
        0 <= i < parts.len(),
    ensures
        join_seq(parts.take(i + 1), sep) == if i == 0 {
            parts[0]
        } else {
            join_seq(parts.take(i), sep) + sep + parts[i]
        },
{
    assert(parts.take(i + 1).drop_last() =~= parts.take(i));
    if i == 0 {
        assert(parts.take(1).len() == 1);
    }
}

/// Appends the strings of `v` with `sep` between consecutive ones.
pub fn push_joined(out: &mut String, v: &Vec<String>, sep: &str)
    ensures
        final(out)@ == old(out)@ + join_seq(views(v@), sep@),
{
    let ghost start = out@;
    let mut i: usize = 0;
    assert(join_seq(views(v@).take(0), sep@) =~= Seq::<char>::empty());
    assert(start + Seq::<char>::empty() =~= start);
    while i < v.len()
        invariant
            i <= v@.len(),
            out@ == start + join_seq(views(v@).take(i as int), sep@),
        decreases v@.len() - i,
    {
        let ghost before = out@;
        proof {
            lemma_join_take(views(v@), sep@, i as int);
        }
        if i > 0 {
            push_str(out, sep);
        }
        push_str(out, v[i].as_str());
        if i > 0 {
            assert(out@ =~= start + (join_seq(views(v@).take(i as int), sep@) + sep@ + v@[i as int]@));
        } else {
            assert(out@ =~= start + v@[0]@);
        }
        i = i + 1;
    }
    assert(views(v@).take(v@.len() as int) =~= views(v@));
}

/// The strings of `v` with `sep` between consecutive ones.
pub fn joined(v: &Vec<String>, sep: &str) -> (r: String)
    ensures
        r@ == join_seq(views(v@), sep@),
{
    let mut r = String::new();
    push_joined(&mut r, v, sep);
    assert(r@ =~= join_seq(views(v@), sep@));
    r
}

/// The head of the Markdown document up to the table directory rows.
pub open spec fn md_header(acc: Seq<char>, db_name: Seq<char>, l: Labels) -> Seq<char> {
    acc + "<a id=\"index\"></a>\n\n# "@ + l.doc_title@ + "\n\n"@ + l.database_name@ + ": `"@ + db_name + "`\n\n"@ + l.document_version@ + ": 1.0.0\n\n"@ + l.document_description@ + ": Database design document\n\n---\n\n## "@ + l.table_directory@ + "\n\n| "@ + l.sequence@ + " | "@ + l.table_name@ + " | "@ + l.description@ + " |\n| --- | --- | --- |\n"@
}

fn md_header_exec(out: &mut String, db_name: &str, l: &Labels)
    ensures
        final(out)@ == md_header(old(out)@, db_name@, *l),
{
    push_str(out, "<a id=\"index\"></a>\n\n# ");
    push_str(out, l.doc_title.as_str());
    push_str(out, "\n\n");
    push_str(out, l.database_name.as_str());
    push_str(out, ": `");
    push_str(out, db_name);
    push_str(out, "`\n\n");
    push_str(out, l.document_version.as_str());
    push_str(out, ": 1.0.0\n\n");
    push_str(out, l.document_description.as_str());
    push_str(out, ": Database design document\n\n---\n\n## ");
    push_str(out, l.table_directory.as_str());
    push_str(out, "\n\n| ");
    push_str(out, l.sequence.as_str());
    push_str(out, " | ");
    push_str(out, l.table_name.as_str());
    push_str(out, " | ");
    push_str(out, l.description.as_str());
    push_str(out, " |\n| --- | --- | --- |\n");
}

/// One row of the Markdown table directory.
pub open spec fn md_dir_row(acc: Seq<char>, t: Table, i: nat) -> Seq<char> {
    acc + "| "@ + dec(i + 1) + " | [`"@ + t.name@ + "`](#"@ + anchor_seq(t.name@) + ") | "@ + markdown_cell_seq(t.comment@) + " |\n"@
}

fn md_dir_row_exec(out: &mut String, t: &Table, i: usize)
    requires
        i < usize::MAX,
    ensures
        final(out)@ == md_dir_row(old(out)@, *t, i as nat),
{
    push_str(out, "| ");
    push_dec(out, i + 1);
    push_str(out, " | [`");
    push_str(out, t.name.as_str());
    push_str(out, "`](#");
    push_str(out, anchor_name(t.name.as_str()).as_str());
    push_str(out, ") | ");
    push_str(out, markdown_cell(t.comment.as_str()).as_str());
    push_str(out, " |\n");
}

/// The head of the Markdown section of a table.
pub open spec fn md_section_head(acc: Seq<char>, t: Table, l: Labels) -> Seq<char> {
    acc + "---\n\n<a id=\""@ + anchor_seq(t.name@) + "\"></a>\n\n## "@ + l.table_name@ + ": `"@ + t.name@ + "`\n\n["@ + l.back_to_index@ + "](#index)\n\n"@
}

fn md_section_head_exec(out: &mut String, t: &Table, l: &Labels)
    ensures
        final(out)@ == md_section_head(old(out)@, *t, *l),
{
    push_str(out, "---\n\n<a id=\"");
    push_str(out, anchor_name(t.name.as_str()).as_str());
    push_str(out, "\"></a>\n\n## ");
    push_str(out, l.table_name.as_str());
    push_str(out, ": `");
    push_str(out, t.name.as_str());
    push_str(out, "`\n\n[");
    push_str(out, l.back_to_index.as_str());
    push_str(out, "](#index)\n\n");
}

/// The comment line of a Markdown table section.
pub open spec fn md_section_comment(acc: Seq<char>, t: Table, l: Labels) -> Seq<char> {
    acc + l.description@ + ": "@ + t.comment@ + "\n\n"@
}

fn md_section_comment_exec(out: &mut String, t: &Table, l: &Labels)
    ensures
        final(out)@ == md_section_comment(old(out)@, *t, *l),
{
    push_str(out, l.description.as_str());
    push_str(out, ": ");
    push_str(out, t.comment.as_str());
    push_str(out, "\n\n");
}

/// The head of the Markdown column table.
pub open spec fn md_columns_head(acc: Seq<char>, l: Labels) -> Seq<char> {
    acc + "### "@ + l.data_columns@ + "\n\n| "@ + l.sequence@ + " | "@ + l.column_name@ + " | "@ + l.data_type@ + " | "@ + l.nullable@ + " | "@ + l.primary_key@ + " | "@ + l.default_value@ + " | "@ + l.extra@ + " | "@ + l.description@ + " |\n| --- | --- | --- | --- | --- | --- | --- | --- |\n"@
}

fn md_columns_head_exec(out: &mut String, l: &Labels)
    ensures
        final(out)@ == md_columns_head(old(out)@, *l),
{
    push_str(out, "### ");
    push_str(out, l.data_columns.as_str());
    push_str(out, "\n\n| ");
    push_str(out, l.sequence.as_str());
    push_str(out, " | ");
    push_str(out, l.column_name.as_str());
    push_str(out, " | ");
    push_str(out, l.data_type.as_str());
    push_str(out, " | ");
    push_str(out, l.nullable.as_str());
    push_str(out, " | ");
    push_str(out, l.primary_key.as_str());
    push_str(out, " | ");
    push_str(out, l.default_value.as_str());
    push_str(out, " | ");
    push_str(out, l.extra.as_str());
    push_str(out, " | ");
    push_str(out, l.description.as_str());
    push_str(out, " |\n| --- | --- | --- | --- | --- | --- | --- | --- |\n");
}

/// One row of the Markdown column table.
pub open spec fn md_column_row(acc: Seq<char>, c: Column, i: nat, l: Labels) -> Seq<char> {
    acc + "| "@ + dec(i + 1) + " | `"@ + c.name@ + "` | `"@ + c.data_type@ + "` | "@ + yes_no(l, c.nullable) + " | "@ + yes_no(l, is_pk(c.key@)) + " | "@ + markdown_cell_seq(c.default_value@) + " | "@ + markdown_cell_seq(c.extra@) + " | "@ + markdown_cell_seq(c.comment@) + " |\n"@
}

fn md_column_row_exec(out: &mut String, c: &Column, i: usize, l: &Labels)
    requires
        i < usize::MAX,
    ensures
        final(out)@ == md_column_row(old(out)@, *c, i as nat, *l),
{
    push_str(out, "| ");
    push_dec(out, i + 1);
    push_str(out, " | `");
    push_str(out, c.name.as_str());
    push_str(out, "` | `");
    push_str(out, c.data_type.as_str());
    push_str(out, "` | ");
    push_str(out, l.bool(c.nullable));
    push_str(out, " | ");
    push_str(out, l.bool(is_primary_key(c.key.as_str())));
    push_str(out, " | ");
    push_str(out, markdown_cell(c.default_value.as_str()).as_str());
    push_str(out, " | ");
    push_str(out, markdown_cell(c.extra.as_str()).as_str());
    push_str(out, " | ");
    push_str(out, markdown_cell(c.comment.as_str()).as_str());
    push_str(out, " |\n");
}

/// The head of the Markdown index table.
pub open spec fn md_indexes_head(acc: Seq<char>, l: Labels) -> Seq<char> {
    acc + "\n### "@ + l.indexes@ + "\n\n| "@ + l.index_name@ + " | "@ + l.unique@ + " | "@ + l.columns@ + " |\n| --- | --- | --- |\n"@
}

fn md_indexes_head_exec(out: &mut String, l: &Labels)
    ensures
        final(out)@ == md_indexes_head(old(out)@, *l),
{
    push_str(out, "\n### ");
    push_str(out, l.indexes.as_str());
    push_str(out, "\n\n| ");
    push_str(out, l.index_name.as_str());
    push_str(out, " | ");
    push_str(out, l.unique.as_str());
    push_str(out, " | ");
    push_str(out, l.columns.as_str());
    push_str(out, " |\n| --- | --- | --- |\n");
}

/// One row of the Markdown index table.
pub open spec fn md_index_row(acc: Seq<char>, x: Index, l: Labels) -> Seq<char> {
    acc + "| `"@ + x.name@ + "` | "@ + yes_no(l, x.unique) + " | "@ + join_seq(views(x.columns@), ", "@) + " |\n"@
}

fn md_index_row_exec(out: &mut String, x: &Index, l: &Labels)
    ensures
        final(out)@ == md_index_row(old(out)@, *x, *l),
{
    push_str(out, "| `");
    push_str(out, x.name.as_str());
    push_str(out, "` | ");
    push_str(out, l.bool(x.unique));
    push_str(out, " | ");
    push_joined(out, &x.columns, ", ");
    push_str(out, " |\n");
}

/// The head of the HTML document up to the table directory rows.
pub open spec fn html_header(acc: Seq<char>, db_name: Seq<char>, l: Labels) -> Seq<char> {
    acc + "<!doctype html>\n<html lang=\""@ + l.html_lang@ + "\">\n<head>\n  <meta charset=\"utf-8\">\n  <title>"@ + escape_html_seq(l.doc_title@) + " - "@ + escape_html_seq(db_name) + "</title>\n  <style>\n    :root { color-scheme: light; }\n    body { background: #f3f6f4; color: #17201c; font-family: -apple-system, BlinkMacSystemFont, \"Segoe UI\", \"PingFang SC\", \"Microsoft YaHei\", sans-serif; line-height: 1.55; margin: 0; }\n    .page { margin: 0 auto; max-width: 1180px; padding: 36px 32px 56px; }\n    .doc-header { background: #ffffff; border: 1px solid #d7dfda; border-radius: 8px; padding: 24px 28px; }\n    h1 { font-size: 30px; line-height: 1.2; margin: 0 0 18px; }\n    h2 { border-bottom: 2px solid #17664c; font-size: 22px; margin: 34px 0 12px; padding-bottom: 8px; }\n    h3 { font-size: 17px; margin: 20px 0 10px; }\n    .meta { display: grid; gap: 8px; margin: 0; }\n    .meta div { display: grid; gap: 8px; grid-template-columns: 120px minmax(0, 1fr); }\n    .meta dt { color: #5f7067; font-weight: 700; }\n    .meta dd { margin: 0; overflow-wrap: anywhere; }\n    .section { background: #ffffff; border: 1px solid #d7dfda; border-radius: 8px; margin-top: 22px; padding: 20px 22px; }\n    .section-title { align-items: baseline; display: flex; gap: 12px; justify-content: space-between; }\n    .back-link { color: #17664c; font-size: 13px; font-weight: 700; text-decoration: none; }\n    table { border-collapse: collapse; width: 100%; margin: 12px 0 22px; table-layout: fixed; }\n    th, td { border: 1px solid #ccd8d1; padding: 9px 10px; text-align: left; vertical-align: top; word-break: break-word; }\n    th { background: #e7f0eb; color: #163d2f; font-weight: 800; }\n    tbody tr:nth-child(even) { background: #f8faf9; }\n    code { background: #edf4ef; border-radius: 4px; color: #123a2c; padding: 1px 4px; }\n    .muted { color: #68756d; }\n    .num { width: 58px; }\n    .name { width: 20%; }\n    .type { width: 18%; }\n    .flag { width: 90px; }\n    @media print { body { background: #ffffff; } .page { max-width: none; padding: 0; } .doc-header, .section { border: 0; } }\n  </style>\n</head>\n<body>\n  <main class=\"page\">\n    <header class=\"doc-header\">\n      <h1>"@ + escape_html_seq(l.doc_title@) + "</h1>\n      <dl class=\"meta\">\n        <div><dt>"@ + escape_html_seq(l.database_name@) + "</dt><dd><code>"@ + escape_html_seq(db_name) + "</code></dd></div>\n        <div><dt>"@ + escape_html_seq(l.document_version@) + "</dt><dd>1.0.0</dd></div>\n        <div><dt>"@ + escape_html_seq(l.document_description@) + "</dt><dd>Database design document</dd></div>\n      </dl>\n    </header>\n    <section class=\"section\" id=\"index\">\n      <h2>"@ + escape_html_seq(l.table_directory@) + "</h2>\n      <table>\n        <thead><tr><th class=\"num\">"@ + escape_html_seq(l.sequence@) + "</th><th>"@ + escape_html_seq(l.table_name@) + "</th><th>"@ + escape_html_seq(l.description@) + "</th></tr></thead>\n        <tbody>\n"@
}

fn html_header_exec(out: &mut String, db_name: &str, l: &Labels)
    ensures
        final(out)@ == html_header(old(out)@, db_name@, *l),
{
    push_str(out, "<!doctype html>\n<html lang=\"");
    push_str(out, l.html_lang.as_str());
    push_str(out, "\">\n<head>\n  <meta charset=\"utf-8\">\n  <title>");
    push_escape_html(out, l.doc_title.as_str());
    push_str(out, " - ");
    push_escape_html(out, db_name);
    push_str(out, "</title>\n  <style>\n    :root { color-scheme: light; }\n    body { background: #f3f6f4; color: #17201c; font-family: -apple-system, BlinkMacSystemFont, \"Segoe UI\", \"PingFang SC\", \"Microsoft YaHei\", sans-serif; line-height: 1.55; margin: 0; }\n    .page { margin: 0 auto; max-width: 1180px; padding: 36px 32px 56px; }\n    .doc-header { background: #ffffff; border: 1px solid #d7dfda; border-radius: 8px; padding: 24px 28px; }\n    h1 { font-size: 30px; line-height: 1.2; margin: 0 0 18px; }\n    h2 { border-bottom: 2px solid #17664c; font-size: 22px; margin: 34px 0 12px; padding-bottom: 8px; }\n    h3 { font-size: 17px; margin: 20px 0 10px; }\n    .meta { display: grid; gap: 8px; margin: 0; }\n    .meta div { display: grid; gap: 8px; grid-template-columns: 120px minmax(0, 1fr); }\n    .meta dt { color: #5f7067; font-weight: 700; }\n    .meta dd { margin: 0; overflow-wrap: anywhere; }\n    .section { background: #ffffff; border: 1px solid #d7dfda; border-radius: 8px; margin-top: 22px; padding: 20px 22px; }\n    .section-title { align-items: baseline; display: flex; gap: 12px; justify-content: space-between; }\n    .back-link { color: #17664c; font-size: 13px; font-weight: 700; text-decoration: none; }\n    table { border-collapse: collapse; width: 100%; margin: 12px 0 22px; table-layout: fixed; }\n    th, td { border: 1px solid #ccd8d1; padding: 9px 10px; text-align: left; vertical-align: top; word-break: break-word; }\n    th { background: #e7f0eb; color: #163d2f; font-weight: 800; }\n    tbody tr:nth-child(even) { background: #f8faf9; }\n    code { background: #edf4ef; border-radius: 4px; color: #123a2c; padding: 1px 4px; }\n    .muted { color: #68756d; }\n    .num { width: 58px; }\n    .name { width: 20%; }\n    .type { width: 18%; }\n    .flag { width: 90px; }\n    @media print { body { background: #ffffff; } .page { max-width: none; padding: 0; } .doc-header, .section { border: 0; } }\n  </style>\n</head>\n<body>\n  <main class=\"page\">\n    <header class=\"doc-header\">\n      <h1>");
    push_escape_html(out, l.doc_title.as_str());
    push_str(out, "</h1>\n      <dl class=\"meta\">\n        <div><dt>");
    push_escape_html(out, l.database_name.as_str());
    push_str(out, "</dt><dd><code>");
    push_escape_html(out, db_name);
    push_str(out, "</code></dd></div>\n        <div><dt>");
    push_escape_html(out, l.document_version.as_str());
    push_str(out, "</dt><dd>1.0.0</dd></div>\n        <div><dt>");
    push_escape_html(out, l.document_description.as_str());
    push_str(out, "</dt><dd>Database design document</dd></div>\n      </dl>\n    </header>\n    <section class=\"section\" id=\"index\">\n      <h2>");
    push_escape_html(out, l.table_directory.as_str());
    push_str(out, "</h2>\n      <table>\n        <thead><tr><th class=\"num\">");
    push_escape_html(out, l.sequence.as_str());
    push_str(out, "</th><th>");
    push_escape_html(out, l.table_name.as_str());
    push_str(out, "</th><th>");
    push_escape_html(out, l.description.as_str());
    push_str(out, "</th></tr></thead>\n        <tbody>\n");
}

/// One row of the HTML table directory.
pub open spec fn html_dir_row(acc: Seq<char>, t: Table, i: nat) -> Seq<char> {
    acc + "<tr><td>"@ + dec(i + 1) + "</td><td><a href=\"#"@ + anchor_seq(t.name@) + "\"><code>"@ + escape_html_seq(t.name@) + "</code></a></td><td>"@ + escape_html_seq(t.comment@) + "</td></tr>\n"@
}

fn html_dir_row_exec(out: &mut String, t: &Table, i: usize)
    requires
        i < usize::MAX,
    ensures
        final(out)@ == html_dir_row(old(out)@, *t, i as nat),
{
    push_str(out, "<tr><td>");
    push_dec(out, i + 1);
    push_str(out, "</td><td><a href=\"#");
    push_str(out, anchor_name(t.name.as_str()).as_str());
    push_str(out, "\"><code>");
    push_escape_html(out, t.name.as_str());
    push_str(out, "</code></a></td><td>");
    push_escape_html(out, t.comment.as_str());
    push_str(out, "</td></tr>\n");
}

/// The head of the HTML section of a table.
pub open spec fn html_section_head(acc: Seq<char>, t: Table, l: Labels) -> Seq<char> {
    acc + "<section class=\"section\" id=\""@ + anchor_seq(t.name@) + "\">\n  <div class=\"section-title\"><h2>"@ + escape_html_seq(l.table_name@) + ": <code>"@ + escape_html_seq(t.name@) + "</code></h2><a class=\"back-link\" href=\"#index\">"@ + escape_html_seq(l.back_to_index@) + "</a></div>\n"@
}

fn html_section_head_exec(out: &mut String, t: &Table, l: &Labels)
    ensures
        final(out)@ == html_section_head(old(out)@, *t, *l),
{
    push_str(out, "<section class=\"section\" id=\"");
    push_str(out, anchor_name(t.name.as_str()).as_str());
    push_str(out, "\">\n  <div class=\"section-title\"><h2>");
    push_escape_html(out, l.table_name.as_str());
    push_str(out, ": <code>");
    push_escape_html(out, t.name.as_str());
    push_str(out, "</code></h2><a class=\"back-link\" href=\"#index\">");
    push_escape_html(out, l.back_to_index.as_str());
    push_str(out, "</a></div>\n");
}

/// The comment paragraph of an HTML table section.
pub open spec fn html_section_comment(acc: Seq<char>, t: Table, l: Labels) -> Seq<char> {
    acc + "<p><strong>"@ + escape_html_seq(l.description@) + ":</strong> "@ + escape_html_seq(t.comment@) + "</p>\n"@
}

fn html_section_comment_exec(out: &mut String, t: &Table, l: &Labels)
    ensures
        final(out)@ == html_section_comment(old(out)@, *t, *l),
{
    push_str(out, "<p><strong>");
    push_escape_html(out, l.description.as_str());
    push_str(out, ":</strong> ");
    push_escape_html(out, t.comment.as_str());
    push_str(out, "</p>\n");
}

/// The head of the HTML column table.
pub open spec fn html_columns_head(acc: Seq<char>, l: Labels) -> Seq<char> {
    acc + "<h3>"@ + escape_html_seq(l.data_columns@) + "</h3><table><thead><tr><th class=\"num\">"@ + escape_html_seq(l.sequence@) + "</th><th class=\"name\">"@ + escape_html_seq(l.column_name@) + "</th><th class=\"type\">"@ + escape_html_seq(l.data_type@) + "</th><th class=\"flag\">"@ + escape_html_seq(l.nullable@) + "</th><th class=\"flag\">"@ + escape_html_seq(l.primary_key@) + "</th><th>"@ + escape_html_seq(l.default_value@) + "</th><th>"@ + escape_html_seq(l.extra@) + "</th><th>"@ + escape_html_seq(l.description@) + "</th></tr></thead><tbody>\n"@
}

fn html_columns_head_exec(out: &mut String, l: &Labels)
    ensures
        final(out)@ == html_columns_head(old(out)@, *l),
{
    push_str(out, "<h3>");
    push_escape_html(out, l.data_columns.as_str());
    push_str(out, "</h3><table><thead><tr><th class=\"num\">");
    push_escape_html(out, l.sequence.as_str());
    push_str(out, "</th><th class=\"name\">");
    push_escape_html(out, l.column_name.as_str());
    push_str(out, "</th><th class=\"type\">");
    push_escape_html(out, l.data_type.as_str());
    push_str(out, "</th><th class=\"flag\">");
    push_escape_html(out, l.nullable.as_str());
    push_str(out, "</th><th class=\"flag\">");
    push_escape_html(out, l.primary_key.as_str());
    push_str(out, "</th><th>");
    push_escape_html(out, l.default_value.as_str());
    push_str(out, "</th><th>");
    push_escape_html(out, l.extra.as_str());
    push_str(out, "</th><th>");
    push_escape_html(out, l.description.as_str());
    push_str(out, "</th></tr></thead><tbody>\n");
}

/// One row of the HTML column table.
pub open spec fn html_column_row(acc: Seq<char>, c: Column, i: nat, l: Labels) -> Seq<char> {
    acc + "<tr><td>"@ + dec(i + 1) + "</td><td><code>"@ + escape_html_seq(c.name@) + "</code></td><td><code>"@ + escape_html_seq(c.data_type@) + "</code></td><td>"@ + yes_no(l, c.nullable) + "</td><td>"@ + yes_no(l, is_pk(c.key@)) + "</td><td>"@ + escape_html_seq(c.default_value@) + "</td><td>"@ + escape_html_seq(c.extra@) + "</td><td>"@ + escape_html_seq(c.comment@) + "</td></tr>\n"@
}

fn html_column_row_exec(out: &mut String, c: &Column, i: usize, l: &Labels)
    requires
        i < usize::MAX,
    ensures
        final(out)@ == html_column_row(old(out)@, *c, i as nat, *l),
{
    push_str(out, "<tr><td>");
    push_dec(out, i + 1);
    push_str(out, "</td><td><code>");
    push_escape_html(out, c.name.as_str());
    push_str(out, "</code></td><td><code>");
    push_escape_html(out, c.data_type.as_str());
    push_str(out, "</code></td><td>");
    push_str(out, l.bool(c.nullable));
    push_str(out, "</td><td>");
    push_str(out, l.bool(is_primary_key(c.key.as_str())));
    push_str(out, "</td><td>");
    push_escape_html(out, c.default_value.as_str());
    push_str(out, "</td><td>");
    push_escape_html(out, c.extra.as_str());
    push_str(out, "</td><td>");
    push_escape_html(out, c.comment.as_str());
    push_str(out, "</td></tr>\n");
}

/// The head of the HTML index table.
pub open spec fn html_indexes_head(acc: Seq<char>, l: Labels) -> Seq<char> {
    acc + "<h3>"@ + escape_html_seq(l.indexes@) + "</h3><table><thead><tr><th>"@ + escape_html_seq(l.index_name@) + "</th><th>"@ + escape_html_seq(l.unique@) + "</th><th>"@ + escape_html_seq(l.columns@) + "</th></tr></thead><tbody>\n"@
}

fn html_indexes_head_exec(out: &mut String, l: &Labels)
    ensures
        final(out)@ == html_indexes_head(old(out)@, *l),
{
    push_str(out, "<h3>");
    push_escape_html(out, l.indexes.as_str());
    push_str(out, "</h3><table><thead><tr><th>");
    push_escape_html(out, l.index_name.as_str());
    push_str(out, "</th><th>");
    push_escape_html(out, l.unique.as_str());
    push_str(out, "</th><th>");
    push_escape_html(out, l.columns.as_str());
    push_str(out, "</th></tr></thead><tbody>\n");
}

/// One row of the HTML index table.
pub open spec fn html_index_row(acc: Seq<char>, x: Index, l: Labels) -> Seq<char> {
    acc + "<tr><td><code>"@ + escape_html_seq(x.name@) + "</code></td><td>"@ + yes_no(l, x.unique) + "</td><td>"@ + escape_html_seq(join_seq(views(x.columns@), ", "@)) + "</td></tr>\n"@
}

fn html_index_row_exec(out: &mut String, x: &Index, l: &Labels)
    ensures
        final(out)@ == html_index_row(old(out)@, *x, *l),
{
    push_str(out, "<tr><td><code>");
    push_escape_html(out, x.name.as_str());
    push_str(out, "</code></td><td>");
    push_str(out, l.bool(x.unique));
    push_str(out, "</td><td>");
    push_escape_html(out, joined(&x.columns, ", ").as_str());
    push_str(out, "</td></tr>\n");
}

// ---------------------------------------------------------------------------
// Markdown document
// ---------------------------------------------------------------------------

/// The Markdown directory rows of `tables` from index `i` on.
pub open spec fn md_dir_rows(acc: Seq<char>, tables: Seq<Table>, i: int) -> Seq<char>
    decreases tables.len() - i,
{
    if i < 0 || i >= tables.len() {
        acc
    } else {
        md_dir_rows(md_dir_row(acc, tables[i], i as nat), tables, i + 1)
    }
}

/// The Markdown column rows of `cols` from index `i` on.
pub open spec fn md_column_rows(acc: Seq<char>, cols: Seq<Column>, i: int, l: Labels) -> Seq<char>
    decreases cols.len() - i,
{
    if i < 0 || i >= cols.len() {
        acc
    } else {
        md_column_rows(md_column_row(acc, cols[i], i as nat, l), cols, i + 1, l)
    }
}

/// The Markdown index rows of `idxs` from index `i` on.
pub open spec fn md_index_rows(acc: Seq<char>, idxs: Seq<Index>, i: int, l: Labels) -> Seq<char>
    decreases idxs.len() - i,
{
    if i < 0 || i >= idxs.len() {
        acc
    } else {
        md_index_rows(md_index_row(acc, idxs[i], l), idxs, i + 1, l)
    }
}

/// The Markdown section of a table: head, comment when there is one, the
/// column table, the index table when there are indexes, and a blank line.
pub open spec fn md_section(acc: Seq<char>, t: Table, l: Labels) -> Seq<char> {
    let a1 = md_section_head(acc, t, l);
    let a2 = if t.comment@.len() > 0 {
        md_section_comment(a1, t, l)
    } else {
        a1
    };
    let a3 = md_column_rows(md_columns_head(a2, l), t.columns@, 0, l);
    let a4 = if t.indexes@.len() > 0 {
        md_index_rows(md_indexes_head(a3, l), t.indexes@, 0, l)
    } else {
        a3
    };
    a4 + "\n"@
}

/// The Markdown sections of `tables` from index `i` on.
pub open spec fn md_sections(acc: Seq<char>, tables: Seq<Table>, i: int, l: Labels) -> Seq<char>
    decreases tables.len() - i,
{
    if i < 0 || i >= tables.len() {
        acc
    } else {
        md_sections(md_section(acc, tables[i], l), tables, i + 1, l)
    }
}

/// The Markdown database dictionary of a schema.
pub open spec fn render_markdown_seq(database: DatabaseSchema, l: Labels) -> Seq<char> {
    md_sections(
        md_dir_rows(md_header(Seq::empty(), database.name@, l), database.tables@, 0) + "\n"@,
        database.tables@,
        0,
        l,
    )
}

fn md_dir_rows_exec(out: &mut String, tables: &Vec<Table>)
    ensures
        final(out)@ == md_dir_rows(old(out)@, tables@, 0),
{
    let ghost start = out@;
    let mut i: usize = 0;
    while i < tables.len()
        invariant
            i <= tables@.len(),
            md_dir_rows(out@, tables@, i as int) == md_dir_rows(start, tables@, 0),
        decreases tables@.len() - i,
    {
        md_dir_row_exec(out, &tables[i], i);
        i = i + 1;
    }
}

fn md_column_rows_exec(out: &mut String, cols: &Vec<Column>, l: &Labels)
    ensures
        final(out)@ == md_column_rows(old(out)@, cols@, 0, *l),
{
    let ghost start = out@;
    let mut i: usize = 0;
    while i < cols.len()
        invariant
            i <= cols@.len(),
            md_column_rows(out@, cols@, i as int, *l) == md_column_rows(start, cols@, 0, *l),
        decreases cols@.len() - i,
    {
        md_column_row_exec(out, &cols[i], i, l);
        i = i + 1;
    }
}

fn md_index_rows_exec(out: &mut String, idxs: &Vec<Index>, l: &Labels)
    ensures
        final(out)@ == md_index_rows(old(out)@, idxs@, 0, *l),
{
    let ghost start = out@;
    let mut i: usize = 0;
    while i < idxs.len()
        invariant
            i <= idxs@.len(),
            md_index_rows(out@, idxs@, i as int, *l) == md_index_rows(start, idxs@, 0, *l),
        decreases idxs@.len() - i,
    {
        md_index_row_exec(out, &idxs[i], l);
        i = i + 1;
    }
}

fn md_section_exec(out: &mut String, t: &Table, l: &Labels)
    ensures
        final(out)@ == md_section(old(out)@, *t, *l),
{
    md_section_head_exec(out, t, l);
    if !t.comment.as_str().is_empty() {
        md_section_comment_exec(out, t, l);
    }
    md_columns_head_exec(out, l);
    md_column_rows_exec(out, &t.columns, l);
    if t.indexes.len() > 0 {
        md_indexes_head_exec(out, l);
        md_index_rows_exec(out, &t.indexes, l);
    }
    push_str(out, "\n");
}

pub fn render_markdown(database: &DatabaseSchema, labels: Labels) -> (r: String)
    ensures
        r@ == render_markdown_seq(*database, labels),
{
    let mut md = String::new();
    md_header_exec(&mut md, database.name.as_str(), &labels);
    md_dir_rows_exec(&mut md, &database.tables);
    push_str(&mut md, "\n");
    let ghost start = md@;
    let mut i: usize = 0;
    while i < database.tables.len()
        invariant
            i <= database.tables@.len(),
            md_sections(md@, database.tables@, i as int, labels) == md_sections(
                start,
                database.tables@,
                0,
                labels,
            ),
        decreases database.tables@.len() - i,
    {
        md_section_exec(&mut md, &database.tables[i], &labels);
        i = i + 1;
    }
    md
}

// ---------------------------------------------------------------------------
// HTML document
// ---------------------------------------------------------------------------

/// The HTML directory rows of `tables` from index `i` on.
pub open spec fn html_dir_rows(acc: Seq<char>, tables: Seq<Table>, i: int) -> Seq<char>
    decreases tables.len() - i,
{
    if i < 0 || i >= tables.len() {
        acc
    } else {
        html_dir_rows(html_dir_row(acc, tables[i], i as nat), tables, i + 1)
    }
}

/// The HTML column rows of `cols` from index `i` on.
pub open spec fn html_column_rows(acc: Seq<char>, cols: Seq<Column>, i: int, l: Labels) -> Seq<
    char,
>
    decreases cols.len() - i,
{
    if i < 0 || i >= cols.len() {
        acc
    } else {
        html_column_rows(html_column_row(acc, cols[i], i as nat, l), cols, i + 1, l)
    }
}

/// The HTML index rows of `idxs` from index `i` on.
pub open spec fn html_index_rows(acc: Seq<char>, idxs: Seq<Index>, i: int, l: Labels) -> Seq<char>
    decreases idxs.len() - i,
{
    if i < 0 || i >= idxs.len() {
        acc
    } else {
        html_index_rows(html_index_row(acc, idxs[i], l), idxs, i + 1, l)
    }
}

/// The HTML section of a table: head, comment when there is one, the column
/// table, the index table when there are indexes.
pub open spec fn html_section(acc: Seq<char>, t: Table, l: Labels) -> Seq<char> {
    let a1 = html_section_head(acc, t, l);
    let a2 = if t.comment@.len() > 0 {
        html_section_comment(a1, t, l)
    } else {
        a1
    };
    let a3 = html_column_rows(html_columns_head(a2, l), t.columns@, 0, l) + "</tbody></table>\n"@;
    let a4 = if t.indexes@.len() > 0 {
        html_index_rows(html_indexes_head(a3, l), t.indexes@, 0, l) + "</tbody></table>\n"@
    } else {
        a3
    };
    a4 + "</section>\n"@
}

/// The HTML sections of `tables` from index `i` on.
pub open spec fn html_sections(acc: Seq<char>, tables: Seq<Table>, i: int, l: Labels) -> Seq<char>
    decreases tables.len() - i,
{
    if i < 0 || i >= tables.len() {
        acc
    } else {
        html_sections(html_section(acc, tables[i], l), tables, i + 1, l)
    }
}

/// The HTML database dictionary of a schema.
pub open spec fn render_html_seq(database: DatabaseSchema, l: Labels) -> Seq<char> {
    html_sections(
        html_dir_rows(html_header(Seq::empty(), database.name@, l), database.tables@, 0)
            + "        </tbody>\n      </table>\n    </section>\n"@,
        database.tables@,
        0,
        l,
    ) + "  </main>\n</body>\n</html>\n"@
}

fn html_dir_rows_exec(out: &mut String, tables: &Vec<Table>)
    ensures
        final(out)@ == html_dir_rows(old(out)@, tables@, 0),
{
    let ghost start = out@;
    let mut i: usize = 0;
    while i < tables.len()
        invariant
            i <= tables@.len(),
            html_dir_rows(out@, tables@, i as int) == html_dir_rows(start, tables@, 0),
        decreases tables@.len() - i,
    {
        html_dir_row_exec(out, &tables[i], i);
        i = i + 1;
    }
}

fn html_column_rows_exec(out: &mut String, cols: &Vec<Column>, l: &Labels)
    ensures
        final(out)@ == html_column_rows(old(out)@, cols@, 0, *l),
{
    let ghost start = out@;
    let mut i: usize = 0;
    while i < cols.len()
        invariant
            i <= cols@.len(),
            html_column_rows(out@, cols@, i as int, *l) == html_column_rows(start, cols@, 0, *l),
        decreases cols@.len() - i,
    {
        html_column_row_exec(out, &cols[i], i, l);
        i = i + 1;
    }
}

fn html_index_rows_exec(out: &mut String, idxs: &Vec<Index>, l: &Labels)
    ensures
        final(out)@ == html_index_rows(old(out)@, idxs@, 0, *l),
{
    let ghost start = out@;
    let mut i: usize = 0;
    while i < idxs.len()
        invariant
            i <= idxs@.len(),
            html_index_rows(out@, idxs@, i as int, *l) == html_index_rows(start, idxs@, 0, *l),
        decreases idxs@.len() - i,
    {
        html_index_row_exec(out, &idxs[i], l);
        i = i + 1;
    }
}

fn html_section_exec(out: &mut String, t: &Table, l: &Labels)
    ensures
        final(out)@ == html_section(old(out)@, *t, *l),
{
    html_section_head_exec(out, t, l);
    if !t.comment.as_str().is_empty() {
        html_section_comment_exec(out, t, l);
    }
    html_columns_head_exec(out, l);
    html_column_rows_exec(out, &t.columns, l);
    push_str(out, "</tbody></table>\n");
    if t.indexes.len() > 0 {
        html_indexes_head_exec(out, l);
        html_index_rows_exec(out, &t.indexes, l);
        push_str(out, "</tbody></table>\n");
    }
    push_str(out, "</section>\n");
}

pub fn render_html(database: &DatabaseSchema, labels: Labels) -> (r: String)
    ensures
        r@ == render_html_seq(*database, labels),
{
    let mut html = String::new();
    html_header_exec(&mut html, database.name.as_str(), &labels);
    html_dir_rows_exec(&mut html, &database.tables);
    push_str(&mut html, "        </tbody>\n      </table>\n    </section>\n");
    let ghost start = html@;
    let mut i: usize = 0;
    while i < database.tables.len()
        invariant
            i <= database.tables@.len(),
            html_sections(html@, database.tables@, i as int, labels) == html_sections(
                start,
                database.tables@,
                0,
                labels,
            ),
        decreases database.tables@.len() - i,
    {
        html_section_exec(&mut html, &database.tables[i], &labels);
        i = i + 1;
    }
    push_str(&mut html, "  </main>\n</body>\n</html>\n");
    html
}

} // verus!
