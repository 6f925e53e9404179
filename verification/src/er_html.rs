//! The ER diagram page: table nodes, relation lines with their end markers,
//! and the script that keeps lines on their columns while zooming.

use vstd::prelude::*;
use crate::er::{
    anchor_y, er_bounded, er_column_anchor_y, er_fits, er_grid_columns, er_lookup, er_max_height,
    er_node_positions, er_order, er_place, grid_columns_of, lemma_anchor_bounded, lemma_lookup_nodes,
    ER_NODE_GAP_X, ER_NODE_GAP_Y, ER_NODE_WIDTH, ER_START_Y,
};
use crate::labels::{escape_html_attr_seq, escape_html_seq, push_escape_html, push_escape_html_attr};
use crate::model::{Column, DatabaseSchema, Table, TableRelation};
use crate::naming::{is_pk, is_primary_key};
use crate::relations::{
    css_class_seq, relation_css_class, relation_source_endpoint_kind,
    relation_target_endpoint_kind, source_kind_of, target_kind_of, ErEndpointKind, ErEndpointSide,
};
use crate::text::{dec, push_dec, push_str};

verus! {

/// The primary key badge after a column name.
pub open spec fn pk_badge(key: Seq<char>) -> Seq<char> {
    if is_pk(key) {
        " <span class=\"badge\">PK</span>"@
    } else {
        ""@
    }
}

fn pk_badge_str(key: &str) -> (r: &'static str)
    ensures
        r@ == pk_badge(key@),
{
    if is_primary_key(key) {
        " <span class=\"badge\">PK</span>"
    } else {
        ""
    }
}

/// The head of the diagram page up to the relation lines.
pub open spec fn er_head(acc: Seq<char>, name: Seq<char>, tables: nat, relations: nat, width: nat, height: nat) -> Seq<char> {
    acc + "<!doctype html>\n<html lang=\"zh-CN\">\n<head>\n  <meta charset=\"utf-8\">\n  <title>ER Diagram - "@ + escape_html_seq(name) + "</title>\n  <style>\n    html, body { height: 100%; }\n    body { background: #f3f6f4; color: #17201c; font-family: -apple-system, BlinkMacSystemFont, \"Segoe UI\", \"PingFang SC\", \"Microsoft YaHei\", sans-serif; margin: 0; overflow: hidden; }\n    .page { box-sizing: border-box; display: flex; flex-direction: column; height: 100vh; padding: 14px; }\n    .diagram-header { align-items: center; display: flex; flex: 0 0 auto; gap: 18px; justify-content: space-between; margin-bottom: 10px; min-width: 0; }\n    .title-meta { min-width: 0; }\n    h1 { font-size: 20px; margin: 0; overflow: hidden; text-overflow: ellipsis; white-space: nowrap; }\n    .subtitle { color: #68756d; font-size: 12px; margin: 3px 0 0; }\n    .header-tools { align-items: center; display: flex; flex: 0 0 auto; gap: 18px; }\n    .diagram-toolbar { align-items: center; display: flex; gap: 8px; }\n    .diagram-toolbar button { background: #ffffff; border: 1px solid #c8d2cc; border-radius: 6px; color: #17201c; cursor: pointer; font-size: 13px; font-weight: 800; min-width: 36px; padding: 7px 10px; }\n    .diagram-toolbar button:hover { border-color: #17664c; color: #17664c; }\n    .zoom-value { color: #425047; font-size: 12px; font-weight: 800; min-width: 48px; text-align: center; }\n    .diagram { background: #ffffff; border: 1px solid #d7dfda; border-radius: 8px; flex: 1 1 auto; min-height: 0; overflow: auto; position: relative; width: 100%; }\n    .diagram-content { height: "@ + dec(height) + "px; position: relative; transform-origin: 0 0; width: "@ + dec(width) + "px; }\n    svg { height: "@ + dec(height) + "px; left: 0; overflow: visible; position: absolute; top: 0; width: "@ + dec(width) + "px; }\n    .relation-line { fill: none; opacity: 0.1; stroke-width: 1.6; transition: opacity 140ms ease, stroke-width 140ms ease; }\n    .relation-line.is-highlighted { opacity: 0.95; stroke-width: 3; }\n    .relation-line.is-hidden { opacity: 0.025; }\n    .relation-marker { fill: none; opacity: 0.18; stroke-linecap: round; stroke-width: 2; transition: opacity 140ms ease, stroke-width 140ms ease; }\n    .relation-marker.is-highlighted { opacity: 0.95; stroke-width: 3; }\n    .relation-marker.is-hidden { opacity: 0.025; }\n    .relation-database-fk { stroke: #17664c; }\n    .relation-uploaded { stroke: #275d9f; }\n    .relation-manual { stroke: #8c4b13; }\n    .relation-inferred { stroke: #7d8790; stroke-dasharray: 7 6; }\n    .table-node { background: #fbfcfb; border: 1px solid #c8d2cc; border-radius: 8px; box-shadow: 0 10px 26px rgba(27, 45, 36, 0.08); position: absolute; transition: opacity 140ms ease, outline-color 140ms ease; width: "@ + dec(ER_NODE_WIDTH as nat) + "px; }\n    .table-node.is-related { outline: 3px solid rgba(23, 102, 76, 0.2); }\n    .table-node.is-dimmed { opacity: 0.38; }\n    .table-title { background: #17664c; border-radius: 7px 7px 0 0; color: #ffffff; font-size: 14px; font-weight: 800; line-height: 1.35; overflow-wrap: anywhere; padding: 10px 11px; }\n    .table-comment { color: #68756d; font-size: 11px; line-height: 1.35; padding: 8px 11px 0; }\n    .column-list { display: grid; padding: 8px 0 10px; }\n    .column-row { align-items: center; display: grid; gap: 8px; grid-template-columns: minmax(0, 1fr) auto; min-height: 28px; padding: 0 11px; transition: background 140ms ease; }\n    .column-row.is-relation-endpoint { background: #e7f0eb; }\n    .column-name { font-size: 12px; font-weight: 750; overflow: hidden; text-overflow: ellipsis; white-space: nowrap; }\n    .column-type { color: #68756d; font-size: 11px; overflow: hidden; text-overflow: ellipsis; white-space: nowrap; }\n    .badge { background: #e7f0eb; border-radius: 5px; color: #17664c; font-size: 10px; font-weight: 850; padding: 2px 5px; }\n    .legend { display: flex; flex-wrap: wrap; gap: 12px; }\n    .legend span { align-items: center; color: #425047; display: inline-flex; font-size: 12px; font-weight: 750; gap: 6px; }\n    .legend i { border-top: 2px solid; display: inline-block; width: 28px; }\n    .legend .database-fk { border-color: #17664c; }\n    .legend .uploaded { border-color: #275d9f; }\n    .legend .manual { border-color: #8c4b13; }\n    .legend .inferred { border-color: #7d8790; border-top-style: dashed; }\n    @media (max-width: 980px) { .legend { display: none; } }\n  </style>\n</head>\n<body>\n  <main class=\"page\">\n    <header class=\"diagram-header\">\n      <div class=\"title-meta\">\n        <h1>ER Diagram - "@ + escape_html_seq(name) + "</h1>\n        <p class=\"subtitle\">Tables: "@ + dec(tables) + " · Relations: "@ + dec(relations) + "</p>\n      </div>\n      <div class=\"header-tools\">\n        <div class=\"legend\" aria-label=\"关系来源图例\">\n          <span><i class=\"database-fk\"></i>真实外键</span>\n          <span><i class=\"uploaded\"></i>上传关系</span>\n          <span><i class=\"manual\"></i>手工关系</span>\n          <span><i class=\"inferred\"></i>弱关系推断</span>\n        </div>\n        <div class=\"diagram-toolbar\" aria-label=\"ER 图缩放控制\">\n          <button type=\"button\" data-zoom=\"out\">-</button>\n          <button type=\"button\" data-zoom=\"reset\">100%</button>\n          <button type=\"button\" data-zoom=\"in\">+</button>\n          <span class=\"zoom-value\" data-zoom-value>100%</span>\n        </div>\n      </div>\n    </header>\n    <section class=\"diagram\">\n      <div class=\"diagram-content\" data-diagram-content data-base-width=\""@ + dec(width) + "\" data-base-height=\""@ + dec(height) + "\">\n        <svg viewBox=\"0 0 "@ + dec(width) + " "@ + dec(height) + "\" aria-hidden=\"true\">\n"@
}

fn er_head_exec(out: &mut String, name: &str, tables: usize, relations: usize, width: usize, height: usize)
    ensures
        final(out)@ == er_head(old(out)@, name@, tables as nat, relations as nat, width as nat, height as nat),
{
    push_str(out, "<!doctype html>\n<html lang=\"zh-CN\">\n<head>\n  <meta charset=\"utf-8\">\n  <title>ER Diagram - ");
    push_escape_html(out, name);
    push_str(out, "</title>\n  <style>\n    html, body { height: 100%; }\n    body { background: #f3f6f4; color: #17201c; font-family: -apple-system, BlinkMacSystemFont, \"Segoe UI\", \"PingFang SC\", \"Microsoft YaHei\", sans-serif; margin: 0; overflow: hidden; }\n    .page { box-sizing: border-box; display: flex; flex-direction: column; height: 100vh; padding: 14px; }\n    .diagram-header { align-items: center; display: flex; flex: 0 0 auto; gap: 18px; justify-content: space-between; margin-bottom: 10px; min-width: 0; }\n    .title-meta { min-width: 0; }\n    h1 { font-size: 20px; margin: 0; overflow: hidden; text-overflow: ellipsis; white-space: nowrap; }\n    .subtitle { color: #68756d; font-size: 12px; margin: 3px 0 0; }\n    .header-tools { align-items: center; display: flex; flex: 0 0 auto; gap: 18px; }\n    .diagram-toolbar { align-items: center; display: flex; gap: 8px; }\n    .diagram-toolbar button { background: #ffffff; border: 1px solid #c8d2cc; border-radius: 6px; color: #17201c; cursor: pointer; font-size: 13px; font-weight: 800; min-width: 36px; padding: 7px 10px; }\n    .diagram-toolbar button:hover { border-color: #17664c; color: #17664c; }\n    .zoom-value { color: #425047; font-size: 12px; font-weight: 800; min-width: 48px; text-align: center; }\n    .diagram { background: #ffffff; border: 1px solid #d7dfda; border-radius: 8px; flex: 1 1 auto; min-height: 0; overflow: auto; position: relative; width: 100%; }\n    .diagram-content { height: ");
    push_dec(out, height);
    push_str(out, "px; position: relative; transform-origin: 0 0; width: ");
    push_dec(out, width);
    push_str(out, "px; }\n    svg { height: ");
    push_dec(out, height);
    push_str(out, "px; left: 0; overflow: visible; position: absolute; top: 0; width: ");
    push_dec(out, width);
    push_str(out, "px; }\n    .relation-line { fill: none; opacity: 0.1; stroke-width: 1.6; transition: opacity 140ms ease, stroke-width 140ms ease; }\n    .relation-line.is-highlighted { opacity: 0.95; stroke-width: 3; }\n    .relation-line.is-hidden { opacity: 0.025; }\n    .relation-marker { fill: none; opacity: 0.18; stroke-linecap: round; stroke-width: 2; transition: opacity 140ms ease, stroke-width 140ms ease; }\n    .relation-marker.is-highlighted { opacity: 0.95; stroke-width: 3; }\n    .relation-marker.is-hidden { opacity: 0.025; }\n    .relation-database-fk { stroke: #17664c; }\n    .relation-uploaded { stroke: #275d9f; }\n    .relation-manual { stroke: #8c4b13; }\n    .relation-inferred { stroke: #7d8790; stroke-dasharray: 7 6; }\n    .table-node { background: #fbfcfb; border: 1px solid #c8d2cc; border-radius: 8px; box-shadow: 0 10px 26px rgba(27, 45, 36, 0.08); position: absolute; transition: opacity 140ms ease, outline-color 140ms ease; width: ");
    push_dec(out, ER_NODE_WIDTH);
    push_str(out, "px; }\n    .table-node.is-related { outline: 3px solid rgba(23, 102, 76, 0.2); }\n    .table-node.is-dimmed { opacity: 0.38; }\n    .table-title { background: #17664c; border-radius: 7px 7px 0 0; color: #ffffff; font-size: 14px; font-weight: 800; line-height: 1.35; overflow-wrap: anywhere; padding: 10px 11px; }\n    .table-comment { color: #68756d; font-size: 11px; line-height: 1.35; padding: 8px 11px 0; }\n    .column-list { display: grid; padding: 8px 0 10px; }\n    .column-row { align-items: center; display: grid; gap: 8px; grid-template-columns: minmax(0, 1fr) auto; min-height: 28px; padding: 0 11px; transition: background 140ms ease; }\n    .column-row.is-relation-endpoint { background: #e7f0eb; }\n    .column-name { font-size: 12px; font-weight: 750; overflow: hidden; text-overflow: ellipsis; white-space: nowrap; }\n    .column-type { color: #68756d; font-size: 11px; overflow: hidden; text-overflow: ellipsis; white-space: nowrap; }\n    .badge { background: #e7f0eb; border-radius: 5px; color: #17664c; font-size: 10px; font-weight: 850; padding: 2px 5px; }\n    .legend { display: flex; flex-wrap: wrap; gap: 12px; }\n    .legend span { align-items: center; color: #425047; display: inline-flex; font-size: 12px; font-weight: 750; gap: 6px; }\n    .legend i { border-top: 2px solid; display: inline-block; width: 28px; }\n    .legend .database-fk { border-color: #17664c; }\n    .legend .uploaded { border-color: #275d9f; }\n    .legend .manual { border-color: #8c4b13; }\n    .legend .inferred { border-color: #7d8790; border-top-style: dashed; }\n    @media (max-width: 980px) { .legend { display: none; } }\n  </style>\n</head>\n<body>\n  <main class=\"page\">\n    <header class=\"diagram-header\">\n      <div class=\"title-meta\">\n        <h1>ER Diagram - ");
    push_escape_html(out, name);
    push_str(out, "</h1>\n        <p class=\"subtitle\">Tables: ");
    push_dec(out, tables);
    push_str(out, " · Relations: ");
    push_dec(out, relations);
    push_str(out, "</p>\n      </div>\n      <div class=\"header-tools\">\n        <div class=\"legend\" aria-label=\"关系来源图例\">\n          <span><i class=\"database-fk\"></i>真实外键</span>\n          <span><i class=\"uploaded\"></i>上传关系</span>\n          <span><i class=\"manual\"></i>手工关系</span>\n          <span><i class=\"inferred\"></i>弱关系推断</span>\n        </div>\n        <div class=\"diagram-toolbar\" aria-label=\"ER 图缩放控制\">\n          <button type=\"button\" data-zoom=\"out\">-</button>\n          <button type=\"button\" data-zoom=\"reset\">100%</button>\n          <button type=\"button\" data-zoom=\"in\">+</button>\n          <span class=\"zoom-value\" data-zoom-value>100%</span>\n        </div>\n      </div>\n    </header>\n    <section class=\"diagram\">\n      <div class=\"diagram-content\" data-diagram-content data-base-width=\"");
    push_dec(out, width);
    push_str(out, "\" data-base-height=\"");
    push_dec(out, height);
    push_str(out, "\">\n        <svg viewBox=\"0 0 ");
    push_dec(out, width);
    push_str(out, " ");
    push_dec(out, height);
    push_str(out, "\" aria-hidden=\"true\">\n");
}

/// The line of a relation.
pub open spec fn er_path(acc: Seq<char>, r: TableRelation, key: nat, sx: nat, sy: nat, mx: nat, ex: nat, ey: nat) -> Seq<char> {
    acc + "        <path class=\"relation-line "@ + css_class_seq(r.source) + "\" data-relation-key=\""@ + dec(key) + "\" data-source=\""@ + escape_html_attr_seq(r.source_table@) + "\" data-source-column=\""@ + escape_html_attr_seq(r.source_column@) + "\" data-target=\""@ + escape_html_attr_seq(r.target_table@) + "\" data-target-column=\""@ + escape_html_attr_seq(r.target_column@) + "\" d=\"M "@ + dec(sx) + " "@ + dec(sy) + " C "@ + dec(mx) + " "@ + dec(sy) + ", "@ + dec(mx) + " "@ + dec(ey) + ", "@ + dec(ex) + " "@ + dec(ey) + "\" />\n"@
}

fn er_path_exec(out: &mut String, r: &TableRelation, key: usize, sx: usize, sy: usize, mx: usize, ex: usize, ey: usize)
    ensures
        final(out)@ == er_path(old(out)@, *r, key as nat, sx as nat, sy as nat, mx as nat, ex as nat, ey as nat),
{
    push_str(out, "        <path class=\"relation-line ");
    push_str(out, relation_css_class(&r.source));
    push_str(out, "\" data-relation-key=\"");
    push_dec(out, key);
    push_str(out, "\" data-source=\"");
    push_escape_html_attr(out, r.source_table.as_str());
    push_str(out, "\" data-source-column=\"");
    push_escape_html_attr(out, r.source_column.as_str());
    push_str(out, "\" data-target=\"");
    push_escape_html_attr(out, r.target_table.as_str());
    push_str(out, "\" data-target-column=\"");
    push_escape_html_attr(out, r.target_column.as_str());
    push_str(out, "\" d=\"M ");
    push_dec(out, sx);
    push_str(out, " ");
    push_dec(out, sy);
    push_str(out, " C ");
    push_dec(out, mx);
    push_str(out, " ");
    push_dec(out, sy);
    push_str(out, ", ");
    push_dec(out, mx);
    push_str(out, " ");
    push_dec(out, ey);
    push_str(out, ", ");
    push_dec(out, ex);
    push_str(out, " ");
    push_dec(out, ey);
    push_str(out, "\" />\n");
}

/// The marker of a relation end with one row.
pub open spec fn er_marker_one(acc: Seq<char>, r: TableRelation, key: nat, endpoint: Seq<char>, x: nat, y: nat, direction: Seq<char>) -> Seq<char> {
    acc + "        <g class=\"relation-marker "@ + css_class_seq(r.source) + "\" data-relation-key=\""@ + dec(key) + "\" data-endpoint=\""@ + endpoint + "\" data-endpoint-kind=\"one\" data-source=\""@ + escape_html_attr_seq(r.source_table@) + "\" data-target=\""@ + escape_html_attr_seq(r.target_table@) + "\" transform=\"translate("@ + dec(x) + " "@ + dec(y) + ") scale("@ + direction + " 1)\"><line x1=\"10\" y1=\"-10\" x2=\"10\" y2=\"10\" /></g>\n"@
}

fn er_marker_one_exec(out: &mut String, r: &TableRelation, key: usize, endpoint: &str, x: usize, y: usize, direction: &str)
    ensures
        final(out)@ == er_marker_one(old(out)@, *r, key as nat, endpoint@, x as nat, y as nat, direction@),
{
    push_str(out, "        <g class=\"relation-marker ");
    push_str(out, relation_css_class(&r.source));
    push_str(out, "\" data-relation-key=\"");
    push_dec(out, key);
    push_str(out, "\" data-endpoint=\"");
    push_str(out, endpoint);
    push_str(out, "\" data-endpoint-kind=\"one\" data-source=\"");
    push_escape_html_attr(out, r.source_table.as_str());
    push_str(out, "\" data-target=\"");
    push_escape_html_attr(out, r.target_table.as_str());
    push_str(out, "\" transform=\"translate(");
    push_dec(out, x);
    push_str(out, " ");
    push_dec(out, y);
    push_str(out, ") scale(");
    push_str(out, direction);
    push_str(out, " 1)\"><line x1=\"10\" y1=\"-10\" x2=\"10\" y2=\"10\" /></g>\n");
}

/// The marker of a relation end with many rows.
pub open spec fn er_marker_many(acc: Seq<char>, r: TableRelation, key: nat, endpoint: Seq<char>, x: nat, y: nat, direction: Seq<char>) -> Seq<char> {
    acc + "        <g class=\"relation-marker "@ + css_class_seq(r.source) + "\" data-relation-key=\""@ + dec(key) + "\" data-endpoint=\""@ + endpoint + "\" data-endpoint-kind=\"many\" data-source=\""@ + escape_html_attr_seq(r.source_table@) + "\" data-target=\""@ + escape_html_attr_seq(r.target_table@) + "\" transform=\"translate("@ + dec(x) + " "@ + dec(y) + ") scale("@ + direction + " 1)\"><line x1=\"4\" y1=\"0\" x2=\"20\" y2=\"0\" /><line x1=\"4\" y1=\"0\" x2=\"20\" y2=\"-11\" /><line x1=\"4\" y1=\"0\" x2=\"20\" y2=\"11\" /></g>\n"@
}

fn er_marker_many_exec(out: &mut String, r: &TableRelation, key: usize, endpoint: &str, x: usize, y: usize, direction: &str)
    ensures
        final(out)@ == er_marker_many(old(out)@, *r, key as nat, endpoint@, x as nat, y as nat, direction@),
{
    push_str(out, "        <g class=\"relation-marker ");
    push_str(out, relation_css_class(&r.source));
    push_str(out, "\" data-relation-key=\"");
    push_dec(out, key);
    push_str(out, "\" data-endpoint=\"");
    push_str(out, endpoint);
    push_str(out, "\" data-endpoint-kind=\"many\" data-source=\"");
    push_escape_html_attr(out, r.source_table.as_str());
    push_str(out, "\" data-target=\"");
    push_escape_html_attr(out, r.target_table.as_str());
    push_str(out, "\" transform=\"translate(");
    push_dec(out, x);
    push_str(out, " ");
    push_dec(out, y);
    push_str(out, ") scale(");
    push_str(out, direction);
    push_str(out, " 1)\"><line x1=\"4\" y1=\"0\" x2=\"20\" y2=\"0\" /><line x1=\"4\" y1=\"0\" x2=\"20\" y2=\"-11\" /><line x1=\"4\" y1=\"0\" x2=\"20\" y2=\"11\" /></g>\n");
}

/// The head of a table node.
pub open spec fn er_node_head(acc: Seq<char>, t: Table, x: nat, y: nat) -> Seq<char> {
    acc + "        <article class=\"table-node\" data-table=\""@ + escape_html_attr_seq(t.name@) + "\" style=\"left: "@ + dec(x) + "px; top: "@ + dec(y) + "px;\">\n          <div class=\"table-title\">"@ + escape_html_seq(t.name@) + "</div>\n"@
}

fn er_node_head_exec(out: &mut String, t: &Table, x: usize, y: usize)
    ensures
        final(out)@ == er_node_head(old(out)@, *t, x as nat, y as nat),
{
    push_str(out, "        <article class=\"table-node\" data-table=\"");
    push_escape_html_attr(out, t.name.as_str());
    push_str(out, "\" style=\"left: ");
    push_dec(out, x);
    push_str(out, "px; top: ");
    push_dec(out, y);
    push_str(out, "px;\">\n          <div class=\"table-title\">");
    push_escape_html(out, t.name.as_str());
    push_str(out, "</div>\n");
}

/// The comment line of a table node.
pub open spec fn er_node_comment(acc: Seq<char>, t: Table) -> Seq<char> {
    acc + "          <div class=\"table-comment\">"@ + escape_html_seq(t.comment@) + "</div>\n"@
}

fn er_node_comment_exec(out: &mut String, t: &Table)
    ensures
        final(out)@ == er_node_comment(old(out)@, *t),
{
    push_str(out, "          <div class=\"table-comment\">");
    push_escape_html(out, t.comment.as_str());
    push_str(out, "</div>\n");
}

/// One column row of a table node.
pub open spec fn er_column_row(acc: Seq<char>, c: Column) -> Seq<char> {
    acc + "            <div class=\"column-row\" data-column=\""@ + escape_html_attr_seq(c.name@) + "\"><span class=\"column-name\">"@ + escape_html_seq(c.name@) + pk_badge(c.key@) + "</span><span class=\"column-type\">"@ + escape_html_seq(c.data_type@) + "</span></div>\n"@
}

fn er_column_row_exec(out: &mut String, c: &Column)
    ensures
        final(out)@ == er_column_row(old(out)@, *c),
{
    push_str(out, "            <div class=\"column-row\" data-column=\"");
    push_escape_html_attr(out, c.name.as_str());
    push_str(out, "\"><span class=\"column-name\">");
    push_escape_html(out, c.name.as_str());
    push_str(out, pk_badge_str(c.key.as_str()));
    push_str(out, "</span><span class=\"column-type\">");
    push_escape_html(out, c.data_type.as_str());
    push_str(out, "</span></div>\n");
}

/// The script and closing tags of the diagram page.
pub open spec fn er_tail() -> Seq<char> {
    "      </div>\n    </section>\n  </main>\n  <script>\n    const diagram = document.querySelector('.diagram');\n    const diagramContent = document.querySelector('[data-diagram-content]');\n    const zoomValue = document.querySelector('[data-zoom-value]');\n    const relationLines = [...document.querySelectorAll('.relation-line')];\n    const relationElements = [...document.querySelectorAll('.relation-line, .relation-marker')];\n    const tableNodes = [...document.querySelectorAll('.table-node')];\n    const columnRows = [...document.querySelectorAll('.column-row')];\n    let zoom = 1;\n\n    function tableNode(tableName) {\n      return tableNodes.find((node) => node.dataset.table === tableName);\n    }\n\n    function columnRow(tableName, columnName) {\n      const node = tableNode(tableName);\n      return node && [...node.querySelectorAll('.column-row')]\n        .find((row) => row.dataset.column === columnName);\n    }\n\n    function anchorFor(tableName, columnName, side) {\n      const node = tableNode(tableName);\n      const row = columnRow(tableName, columnName);\n      const anchorElement = row || node;\n      if (!anchorElement) return null;\n\n      const contentRect = diagramContent.getBoundingClientRect();\n      const anchorRect = anchorElement.getBoundingClientRect();\n      if (!contentRect.width || !contentRect.height) return null;\n      const scaleX = Number(diagramContent.dataset.baseWidth) / contentRect.width;\n      const scaleY = Number(diagramContent.dataset.baseHeight) / contentRect.height;\n      return {\n        x: ((side === 'right' ? anchorRect.right : anchorRect.left) - contentRect.left) * scaleX,\n        y: (anchorRect.top + anchorRect.height / 2 - contentRect.top) * scaleY,\n      };\n    }\n\n    function layoutRelations() {\n      relationLines.forEach((line) => {\n        const source = line.dataset.source;\n        const sourceColumn = line.dataset.sourceColumn;\n        const target = line.dataset.target;\n        const targetColumn = line.dataset.targetColumn;\n        const sourceNode = tableNode(source);\n        const targetNode = tableNode(target);\n        if (!sourceNode || !targetNode) return;\n\n        const sourceRect = sourceNode.getBoundingClientRect();\n        const targetRect = targetNode.getBoundingClientRect();\n        const sourceSide = sourceRect.left <= targetRect.left ? 'right' : 'left';\n        const targetSide = sourceSide === 'right' ? 'left' : 'right';\n        const start = anchorFor(source, sourceColumn, sourceSide);\n        const end = anchorFor(target, targetColumn, targetSide);\n        if (!start || !end) return;\n\n        const startDirection = sourceSide === 'right' ? 1 : -1;\n        const endDirection = targetSide === 'right' ? 1 : -1;\n        const handle = Math.max(40, Math.abs(end.x - start.x) * 0.45);\n        line.setAttribute(\n          'd',\n          `M ${start.x} ${start.y} C ${start.x + startDirection * handle} ${start.y}, ${end.x + endDirection * handle} ${end.y}, ${end.x} ${end.y}`,\n        );\n        relationElements\n          .filter((element) => element.classList.contains('relation-marker') && element.dataset.relationKey === line.dataset.relationKey)\n          .forEach((marker) => {\n            const endpoint = marker.dataset.endpoint === 'source' ? start : end;\n            const direction = marker.dataset.endpoint === 'source' ? startDirection : endDirection;\n            marker.setAttribute('transform', `translate(${endpoint.x} ${endpoint.y}) scale(${direction} 1)`);\n          });\n      });\n    }\n\n    function applyZoom() {\n      const baseWidth = Number(diagramContent.dataset.baseWidth);\n      const baseHeight = Number(diagramContent.dataset.baseHeight);\n      diagramContent.style.zoom = zoom;\n      diagramContent.style.width = `${baseWidth}px`;\n      diagramContent.style.height = `${baseHeight}px`;\n      zoomValue.textContent = `${Math.round(zoom * 100)}%`;\n      requestAnimationFrame(layoutRelations);\n    }\n\n    document.querySelectorAll('[data-zoom]').forEach((button) => {\n      button.addEventListener('click', () => {\n        const action = button.dataset.zoom;\n        if (action === 'in') zoom = Math.min(1.8, zoom + 0.1);\n        if (action === 'out') zoom = Math.max(0.4, zoom - 0.1);\n        if (action === 'reset') zoom = 1;\n        applyZoom();\n      });\n    });\n    diagram.addEventListener('wheel', (event) => {\n      if (!event.ctrlKey && !event.metaKey) return;\n      event.preventDefault();\n      zoom = event.deltaY < 0 ? Math.min(1.8, zoom + 0.1) : Math.max(0.4, zoom - 0.1);\n      applyZoom();\n    }, { passive: false });\n    applyZoom();\n    window.addEventListener('resize', layoutRelations);\n\n    function setFocus(source, target) {\n      relationElements.forEach((line) => {\n        const matched = source && target\n          ? line.dataset.source === source && line.dataset.target === target\n          : line.dataset.source === source || line.dataset.target === source;\n        line.classList.toggle('is-highlighted', matched);\n        line.classList.toggle('is-hidden', !matched);\n      });\n      tableNodes.forEach((node) => {\n        const related = source && target\n          ? node.dataset.table === source || node.dataset.table === target\n          : node.dataset.table === source || relationLines.some((line) =>\n              (line.dataset.source === source || line.dataset.target === source) &&\n              (line.dataset.source === node.dataset.table || line.dataset.target === node.dataset.table)\n            );\n        node.classList.toggle('is-related', related);\n        node.classList.toggle('is-dimmed', !related);\n      });\n      columnRows.forEach((row) => {\n        const tableName = row.closest('.table-node')?.dataset.table;\n        const relatedColumn = relationLines.some((line) => {\n          const matched = source && target\n            ? line.dataset.source === source && line.dataset.target === target\n            : line.dataset.source === source || line.dataset.target === source;\n          return matched && (\n            (line.dataset.source === tableName && line.dataset.sourceColumn === row.dataset.column) ||\n            (line.dataset.target === tableName && line.dataset.targetColumn === row.dataset.column)\n          );\n        });\n        row.classList.toggle('is-relation-endpoint', relatedColumn);\n      });\n    }\n\n    function clearFocus() {\n      relationElements.forEach((line) => line.classList.remove('is-highlighted', 'is-hidden'));\n      tableNodes.forEach((node) => node.classList.remove('is-related', 'is-dimmed'));\n      columnRows.forEach((row) => row.classList.remove('is-relation-endpoint'));\n    }\n\n    tableNodes.forEach((node) => {\n      node.addEventListener('mouseenter', () => setFocus(node.dataset.table));\n      node.addEventListener('mouseleave', clearFocus);\n    });\n  </script>\n</body>\n</html>\n"@
}

fn er_tail_exec(out: &mut String)
    ensures
        final(out)@ == old(out)@ + er_tail(),
{
    push_str(out, "      </div>\n    </section>\n  </main>\n  <script>\n    const diagram = document.querySelector('.diagram');\n    const diagramContent = document.querySelector('[data-diagram-content]');\n    const zoomValue = document.querySelector('[data-zoom-value]');\n    const relationLines = [...document.querySelectorAll('.relation-line')];\n    const relationElements = [...document.querySelectorAll('.relation-line, .relation-marker')];\n    const tableNodes = [...document.querySelectorAll('.table-node')];\n    const columnRows = [...document.querySelectorAll('.column-row')];\n    let zoom = 1;\n\n    function tableNode(tableName) {\n      return tableNodes.find((node) => node.dataset.table === tableName);\n    }\n\n    function columnRow(tableName, columnName) {\n      const node = tableNode(tableName);\n      return node && [...node.querySelectorAll('.column-row')]\n        .find((row) => row.dataset.column === columnName);\n    }\n\n    function anchorFor(tableName, columnName, side) {\n      const node = tableNode(tableName);\n      const row = columnRow(tableName, columnName);\n      const anchorElement = row || node;\n      if (!anchorElement) return null;\n\n      const contentRect = diagramContent.getBoundingClientRect();\n      const anchorRect = anchorElement.getBoundingClientRect();\n      if (!contentRect.width || !contentRect.height) return null;\n      const scaleX = Number(diagramContent.dataset.baseWidth) / contentRect.width;\n      const scaleY = Number(diagramContent.dataset.baseHeight) / contentRect.height;\n      return {\n        x: ((side === 'right' ? anchorRect.right : anchorRect.left) - contentRect.left) * scaleX,\n        y: (anchorRect.top + anchorRect.height / 2 - contentRect.top) * scaleY,\n      };\n    }\n\n    function layoutRelations() {\n      relationLines.forEach((line) => {\n        const source = line.dataset.source;\n        const sourceColumn = line.dataset.sourceColumn;\n        const target = line.dataset.target;\n        const targetColumn = line.dataset.targetColumn;\n        const sourceNode = tableNode(source);\n        const targetNode = tableNode(target);\n        if (!sourceNode || !targetNode) return;\n\n        const sourceRect = sourceNode.getBoundingClientRect();\n        const targetRect = targetNode.getBoundingClientRect();\n        const sourceSide = sourceRect.left <= targetRect.left ? 'right' : 'left';\n        const targetSide = sourceSide === 'right' ? 'left' : 'right';\n        const start = anchorFor(source, sourceColumn, sourceSide);\n        const end = anchorFor(target, targetColumn, targetSide);\n        if (!start || !end) return;\n\n        const startDirection = sourceSide === 'right' ? 1 : -1;\n        const endDirection = targetSide === 'right' ? 1 : -1;\n        const handle = Math.max(40, Math.abs(end.x - start.x) * 0.45);\n        line.setAttribute(\n          'd',\n          `M ${start.x} ${start.y} C ${start.x + startDirection * handle} ${start.y}, ${end.x + endDirection * handle} ${end.y}, ${end.x} ${end.y}`,\n        );\n        relationElements\n          .filter((element) => element.classList.contains('relation-marker') && element.dataset.relationKey === line.dataset.relationKey)\n          .forEach((marker) => {\n            const endpoint = marker.dataset.endpoint === 'source' ? start : end;\n            const direction = marker.dataset.endpoint === 'source' ? startDirection : endDirection;\n            marker.setAttribute('transform', `translate(${endpoint.x} ${endpoint.y}) scale(${direction} 1)`);\n          });\n      });\n    }\n\n    function applyZoom() {\n      const baseWidth = Number(diagramContent.dataset.baseWidth);\n      const baseHeight = Number(diagramContent.dataset.baseHeight);\n      diagramContent.style.zoom = zoom;\n      diagramContent.style.width = `${baseWidth}px`;\n      diagramContent.style.height = `${baseHeight}px`;\n      zoomValue.textContent = `${Math.round(zoom * 100)}%`;\n      requestAnimationFrame(layoutRelations);\n    }\n\n    document.querySelectorAll('[data-zoom]').forEach((button) => {\n      button.addEventListener('click', () => {\n        const action = button.dataset.zoom;\n        if (action === 'in') zoom = Math.min(1.8, zoom + 0.1);\n        if (action === 'out') zoom = Math.max(0.4, zoom - 0.1);\n        if (action === 'reset') zoom = 1;\n        applyZoom();\n      });\n    });\n    diagram.addEventListener('wheel', (event) => {\n      if (!event.ctrlKey && !event.metaKey) return;\n      event.preventDefault();\n      zoom = event.deltaY < 0 ? Math.min(1.8, zoom + 0.1) : Math.max(0.4, zoom - 0.1);\n      applyZoom();\n    }, { passive: false });\n    applyZoom();\n    window.addEventListener('resize', layoutRelations);\n\n    function setFocus(source, target) {\n      relationElements.forEach((line) => {\n        const matched = source && target\n          ? line.dataset.source === source && line.dataset.target === target\n          : line.dataset.source === source || line.dataset.target === source;\n        line.classList.toggle('is-highlighted', matched);\n        line.classList.toggle('is-hidden', !matched);\n      });\n      tableNodes.forEach((node) => {\n        const related = source && target\n          ? node.dataset.table === source || node.dataset.table === target\n          : node.dataset.table === source || relationLines.some((line) =>\n              (line.dataset.source === source || line.dataset.target === source) &&\n              (line.dataset.source === node.dataset.table || line.dataset.target === node.dataset.table)\n            );\n        node.classList.toggle('is-related', related);\n        node.classList.toggle('is-dimmed', !related);\n      });\n      columnRows.forEach((row) => {\n        const tableName = row.closest('.table-node')?.dataset.table;\n        const relatedColumn = relationLines.some((line) => {\n          const matched = source && target\n            ? line.dataset.source === source && line.dataset.target === target\n            : line.dataset.source === source || line.dataset.target === source;\n          return matched && (\n            (line.dataset.source === tableName && line.dataset.sourceColumn === row.dataset.column) ||\n            (line.dataset.target === tableName && line.dataset.targetColumn === row.dataset.column)\n          );\n        });\n        row.classList.toggle('is-relation-endpoint', relatedColumn);\n      });\n    }\n\n    function clearFocus() {\n      relationElements.forEach((line) => line.classList.remove('is-highlighted', 'is-hidden'));\n      tableNodes.forEach((node) => node.classList.remove('is-related', 'is-dimmed'));\n      columnRows.forEach((row) => row.classList.remove('is-relation-endpoint'));\n    }\n\n    tableNodes.forEach((node) => {\n      node.addEventListener('mouseenter', () => setFocus(node.dataset.table));\n      node.addEventListener('mouseleave', clearFocus);\n    });\n  </script>\n</body>\n</html>\n");
}


// ---------------------------------------------------------------------------
// Relation ends
// ---------------------------------------------------------------------------

/// The marker drawn at one end of a relation: a bar for one row, a crow's
/// foot for many, facing right or left.
pub open spec fn endpoint_svg_seq(
    acc: Seq<char>,
    x: nat,
    y: nat,
    side: ErEndpointSide,
    kind: ErEndpointKind,
    r: TableRelation,
    key: nat,
    points_right: bool,
) -> Seq<char> {
    let endpoint = match side {
        ErEndpointSide::Source => "source"@,
        ErEndpointSide::Target => "target"@,
    };
    let direction = if points_right {
        "1"@
    } else {
        "-1"@
    };
    match kind {
        ErEndpointKind::One => er_marker_one(acc, r, key, endpoint, x, y, direction),
        ErEndpointKind::Many => er_marker_many(acc, r, key, endpoint, x, y, direction),
    }
}

fn push_endpoint_svg(
    out: &mut String,
    x: usize,
    y: usize,
    side: ErEndpointSide,
    kind: ErEndpointKind,
    relation: &TableRelation,
    relation_key: usize,
    points_right: bool,
)
    ensures
        final(out)@ == endpoint_svg_seq(
            old(out)@,
            x as nat,
            y as nat,
            side,
            kind,
            *relation,
            relation_key as nat,
            points_right,
        ),
{
    let endpoint = match side {
        ErEndpointSide::Source => "source",
        ErEndpointSide::Target => "target",
    };
    let direction = if points_right {
        "1"
    } else {
        "-1"
    };
    match kind {
        ErEndpointKind::One => er_marker_one_exec(out, relation, relation_key, endpoint, x, y, direction),
        ErEndpointKind::Many => er_marker_many_exec(
            out,
            relation,
            relation_key,
            endpoint,
            x,
            y,
            direction,
        ),
    }
}

/// The SVG marker of one relation end.
pub fn er_endpoint_svg(
    x: usize,
    y: usize,
    side: ErEndpointSide,
    kind: ErEndpointKind,
    relation: &TableRelation,
    relation_key: usize,
    points_right: bool,
) -> (r: String)
    ensures
        r@ == endpoint_svg_seq(
            Seq::empty(),
            x as nat,
            y as nat,
            side,
            kind,
            *relation,
            relation_key as nat,
            points_right,
        ),
{
    let mut out = String::new();
    push_endpoint_svg(&mut out, x, y, side, kind, relation, relation_key, points_right);
    out
}

// ---------------------------------------------------------------------------
// Relations
// ---------------------------------------------------------------------------

/// The line and end markers of relation number `key`, drawn from the side of
/// its source node that faces the target node to the facing side of the
/// target node, when both tables have nodes.
pub open spec fn er_relation_svg(
    acc: Seq<char>,
    tables: Seq<Table>,
    rels: Seq<TableRelation>,
    key: nat,
    r: TableRelation,
) -> Seq<char> {
    match (er_lookup(tables, rels, r.source_table@), er_lookup(tables, rels, r.target_table@)) {
        (Some(sp), Some(tp)) => {
            let left = sp.x <= tp.x;
            let sx: int = if left {
                sp.x + ER_NODE_WIDTH
            } else {
                sp.x as int
            };
            let sy = anchor_y(tables, r, true, sp);
            let ex: int = if left {
                tp.x as int
            } else {
                tp.x + ER_NODE_WIDTH
            };
            let ey = anchor_y(tables, r, false, tp);
            let mx = (sx + ex) / 2;
            let a = er_path(acc, r, key, sx as nat, sy as nat, mx as nat, ex as nat, ey as nat);
            let b = endpoint_svg_seq(
                a,
                sx as nat,
                sy as nat,
                ErEndpointSide::Source,
                source_kind_of(r.relation_type),
                r,
                key,
                left,
            );
            endpoint_svg_seq(
                b,
                ex as nat,
                ey as nat,
                ErEndpointSide::Target,
                target_kind_of(r.relation_type),
                r,
                key,
                !left,
            )
        },
        _ => acc,
    }
}

/// The relations of `rels` from index `i` on.
pub open spec fn er_relation_svgs(
    acc: Seq<char>,
    tables: Seq<Table>,
    rels: Seq<TableRelation>,
    i: int,
) -> Seq<char>
    decreases rels.len() - i,
{
    if i < 0 || i >= rels.len() {
        acc
    } else {
        er_relation_svgs(er_relation_svg(acc, tables, rels, i as nat, rels[i]), tables, rels, i + 1)
    }
}

// ---------------------------------------------------------------------------
// Table nodes
// ---------------------------------------------------------------------------

/// The column rows of `cols` from index `i` on.
pub open spec fn er_column_rows(acc: Seq<char>, cols: Seq<Column>, i: int) -> Seq<char>
    decreases cols.len() - i,
{
    if i < 0 || i >= cols.len() {
        acc
    } else {
        er_column_rows(er_column_row(acc, cols[i]), cols, i + 1)
    }
}

/// The node of table `t` at the position of its name, when it has one.
pub open spec fn er_table_node(
    acc: Seq<char>,
    tables: Seq<Table>,
    rels: Seq<TableRelation>,
    t: Table,
) -> Seq<char> {
    match er_lookup(tables, rels, t.name@) {
        Some(p) => {
            let a1 = er_node_head(acc, t, p.x as nat, p.y as nat);
            let a2 = if t.comment@.len() > 0 {
                er_node_comment(a1, t)
            } else {
                a1
            };
            er_column_rows(a2 + "          <div class=\"column-list\">\n"@, t.columns@, 0)
                + "          </div>\n        </article>\n"@
        },
        None => acc,
    }
}

/// The nodes of `tables` from index `i` on.
pub open spec fn er_table_nodes(
    acc: Seq<char>,
    tables: Seq<Table>,
    rels: Seq<TableRelation>,
    i: int,
) -> Seq<char>
    decreases tables.len() - i,
{
    if i < 0 || i >= tables.len() {
        acc
    } else {
        er_table_nodes(er_table_node(acc, tables, rels, tables[i]), tables, rels, i + 1)
    }
}

// ---------------------------------------------------------------------------
// The page
// ---------------------------------------------------------------------------

/// The lowest node bottom among the first `k` nodes (0 for none).
pub open spec fn er_max_bottom(tables: Seq<Table>, rels: Seq<TableRelation>, k: int) -> int
    decreases k,
{
    if k <= 0 {
        0
    } else {
        let m = er_max_bottom(tables, rels, k - 1);
        let p = er_place(tables, rels, k - 1);
        if p.y + p.height > m {
            p.y + p.height
        } else {
            m
        }
    }
}

/// The canvas width for `g` grid columns.
pub open spec fn canvas_width(g: int) -> int {
    32 + g * ER_NODE_WIDTH + (g - 1) * ER_NODE_GAP_X + 32
}

/// The canvas height: the lowest node bottom and a margin.
pub open spec fn canvas_height(tables: Seq<Table>, rels: Seq<TableRelation>) -> int {
    er_max_bottom(tables, rels, er_order(tables, rels).len() as int) + 80
}

/// The ER diagram page of a schema.
pub open spec fn er_html_seq(database: DatabaseSchema) -> Seq<char> {
    let tables = database.tables@;
    let rels = database.relations@;
    let g = grid_columns_of(tables.len() as int);
    let a = er_head(
        Seq::empty(),
        database.name@,
        tables.len(),
        rels.len(),
        canvas_width(g) as nat,
        canvas_height(tables, rels) as nat,
    );
    let b = er_relation_svgs(a, tables, rels, 0) + "        </svg>\n"@;
    er_table_nodes(b, tables, rels, 0) + er_tail()
}

fn er_relation_svg_exec(
    out: &mut String,
    tables: &[Table],
    rels: &[TableRelation],
    positions: &crate::er::ErNodePositions,
    key: usize,
    r: &TableRelation,
)
    requires
        er_fits(tables@),
        positions.nodes@.len() == er_order(tables@, rels@).len(),
        forall|k: int|
            0 <= k < positions.nodes@.len() ==> crate::er::placed_at(
                tables@,
                rels@,
                k,
                #[trigger] positions.nodes@[k],
            ) && er_bounded(tables@, positions.nodes@[k].position),
    ensures
        final(out)@ == er_relation_svg(old(out)@, tables@, rels@, key as nat, *r),
{
    proof {
        lemma_lookup_nodes(tables@, rels@, positions.nodes@, r.source_table@, 0);
        lemma_lookup_nodes(tables@, rels@, positions.nodes@, r.target_table@, 0);
    }
    let sp = match positions.get(r.source_table.as_str()) {
        Some(p) => p,
        None => {
            return;
        },
    };
    let tp = match positions.get(r.target_table.as_str()) {
        Some(p) => p,
        None => {
            return;
        },
    };
    proof {
        lemma_anchor_bounded(tables@, *r, true, sp);
        lemma_anchor_bounded(tables@, *r, false, tp);
    }
    let left = sp.x <= tp.x;
    let sx = if left {
        sp.x + ER_NODE_WIDTH
    } else {
        sp.x
    };
    let sy = er_column_anchor_y(tables, r, true, &sp);
    let ex = if left {
        tp.x
    } else {
        tp.x + ER_NODE_WIDTH
    };
    let ey = er_column_anchor_y(tables, r, false, &tp);
    let mx = (sx + ex) / 2;
    er_path_exec(out, r, key, sx, sy, mx, ex, ey);
    push_endpoint_svg(
        out,
        sx,
        sy,
        ErEndpointSide::Source,
        relation_source_endpoint_kind(&r.relation_type),
        r,
        key,
        left,
    );
    push_endpoint_svg(
        out,
        ex,
        ey,
        ErEndpointSide::Target,
        relation_target_endpoint_kind(&r.relation_type),
        r,
        key,
        !left,
    );
}

fn er_table_node_exec(
    out: &mut String,
    tables: &[Table],
    rels: &[TableRelation],
    positions: &crate::er::ErNodePositions,
    t: &Table,
)
    requires
        positions.nodes@.len() == er_order(tables@, rels@).len(),
        forall|k: int|
            0 <= k < positions.nodes@.len() ==> crate::er::placed_at(
                tables@,
                rels@,
                k,
                #[trigger] positions.nodes@[k],
            ) && er_bounded(tables@, positions.nodes@[k].position),
    ensures
        final(out)@ == er_table_node(old(out)@, tables@, rels@, *t),
{
    proof {
        lemma_lookup_nodes(tables@, rels@, positions.nodes@, t.name@, 0);
    }
    let p = match positions.get(t.name.as_str()) {
        Some(p) => p,
        None => {
            return;
        },
    };
    er_node_head_exec(out, t, p.x, p.y);
    if !t.comment.as_str().is_empty() {
        er_node_comment_exec(out, t);
    }
    push_str(out, "          <div class=\"column-list\">\n");
    let ghost start = out@;
    let mut i: usize = 0;
    while i < t.columns.len()
        invariant
            i <= t.columns@.len(),
            er_column_rows(out@, t.columns@, i as int) == er_column_rows(start, t.columns@, 0),
        decreases t.columns@.len() - i,
    {
        er_column_row_exec(out, &t.columns[i]);
        i = i + 1;
    }
    push_str(out, "          </div>\n        </article>\n");
}

/// The ER diagram page of a schema: a node per table, placed in diagram
/// order on the grid, and a line with end markers per relation between
/// tables that have nodes.
pub fn render_er_html(database: &DatabaseSchema) -> (r: String)
    requires
        er_fits(database.tables@),
    ensures
        r@ == er_html_seq(*database),
{
    let tables = database.tables.as_slice();
    let rels = database.relations.as_slice();
    let g = er_grid_columns(tables.len());
    let positions = er_node_positions(tables, rels);
    let ghost m = er_max_height(tables@);
    let ghost n = tables@.len() as int;
    let mut bottom: usize = 0;
    let mut k: usize = 0;
    while k < positions.nodes.len()
        invariant
            positions.nodes@.len() == er_order(tables@, rels@).len(),
            forall|q: int|
                0 <= q < positions.nodes@.len() ==> crate::er::placed_at(
                    tables@,
                    rels@,
                    q,
                    #[trigger] positions.nodes@[q],
                ) && er_bounded(tables@, positions.nodes@[q].position),
            er_fits(tables@),
            m == er_max_height(tables@),
            n == tables@.len(),
            k <= positions.nodes@.len(),
            bottom == er_max_bottom(tables@, rels@, k as int),
            bottom + 80 <= ER_START_Y + 80 + n * (m + ER_NODE_GAP_Y),
        decreases positions.nodes@.len() - k,
    {
        let p = positions.nodes[k].position;
        proof {
            assert(crate::er::placed_at(tables@, rels@, k as int, positions.nodes@[k as int]));
            assert(p == er_place(tables@, rels@, k as int));
        }
        if p.y + p.height > bottom {
            bottom = p.y + p.height;
        }
        k = k + 1;
    }
    let width = 32 + g * ER_NODE_WIDTH + (g - 1) * ER_NODE_GAP_X + 32;
    let height = bottom + 80;
    let mut html = String::new();
    er_head_exec(&mut html, database.name.as_str(), tables.len(), rels.len(), width, height);
    let ghost a = html@;
    let mut i: usize = 0;
    while i < rels.len()
        invariant
            er_fits(tables@),
            positions.nodes@.len() == er_order(tables@, rels@).len(),
            forall|q: int|
                0 <= q < positions.nodes@.len() ==> crate::er::placed_at(
                    tables@,
                    rels@,
                    q,
                    #[trigger] positions.nodes@[q],
                ) && er_bounded(tables@, positions.nodes@[q].position),
            i <= rels@.len(),
            er_relation_svgs(html@, tables@, rels@, i as int) == er_relation_svgs(a, tables@, rels@, 0),
        decreases rels@.len() - i,
    {
        er_relation_svg_exec(&mut html, tables, rels, &positions, i, &rels[i]);
        i = i + 1;
    }
    push_str(&mut html, "        </svg>\n");
    let ghost b = html@;
    let mut j: usize = 0;
    while j < tables.len()
        invariant
            positions.nodes@.len() == er_order(tables@, rels@).len(),
            forall|q: int|
                0 <= q < positions.nodes@.len() ==> crate::er::placed_at(
                    tables@,
                    rels@,
                    q,
                    #[trigger] positions.nodes@[q],
                ) && er_bounded(tables@, positions.nodes@[q].position),
            j <= tables@.len(),
            er_table_nodes(html@, tables@, rels@, j as int) == er_table_nodes(b, tables@, rels@, 0),
        decreases tables@.len() - j,
    {
        er_table_node_exec(&mut html, tables, rels, &positions, &tables[j]);
        j = j + 1;
    }
    er_tail_exec(&mut html);
    html
}

} // verus!
