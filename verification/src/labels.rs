//! Built-in document labels and the escaping of text for Markdown and HTML.

use vstd::prelude::*;
use crate::model::OutputConfig;
use crate::text::{chars_eq, chars_of, lower_chars, lower_seq, owned, push_char, push_str, trim_chars, trim_seq};

verus! {

/// The fixed texts of a generated document in one language.
#[derive(Clone, Debug)]
pub struct Labels {
    pub html_lang: String,
    pub doc_title: String,
    pub database_name: String,
    pub document_version: String,
    pub document_description: String,
    pub table_directory: String,
    pub sequence: String,
    pub table_name: String,
    pub description: String,
    pub back_to_index: String,
    pub data_columns: String,
    pub column_name: String,
    pub data_type: String,
    pub nullable: String,
    pub primary_key: String,
    pub default_value: String,
    pub extra: String,
    pub indexes: String,
    pub index_name: String,
    pub unique: String,
    pub columns: String,
    pub yes: String,
    pub no: String,
}

/// The Chinese labels.
pub open spec fn is_zh_cn_labels(l: Labels) -> bool {
    &&& l.html_lang@ == "zh-CN"@
    &&& l.doc_title@ == "数据库设计文档"@
    &&& l.database_name@ == "数据库名"@
    &&& l.document_version@ == "文档版本"@
    &&& l.document_description@ == "文档描述"@
    &&& l.table_directory@ == "表清单"@
    &&& l.sequence@ == "序号"@
    &&& l.table_name@ == "表名"@
    &&& l.description@ == "说明"@
    &&& l.back_to_index@ == "返回目录"@
    &&& l.data_columns@ == "数据列"@
    &&& l.column_name@ == "列名"@
    &&& l.data_type@ == "数据类型"@
    &&& l.nullable@ == "允许空"@
    &&& l.primary_key@ == "主键"@
    &&& l.default_value@ == "默认值"@
    &&& l.extra@ == "附加属性"@
    &&& l.indexes@ == "索引"@
    &&& l.index_name@ == "索引名"@
    &&& l.unique@ == "唯一"@
    &&& l.columns@ == "列"@
    &&& l.yes@ == "Y"@
    &&& l.no@ == "N"@
}

/// The English labels.
pub open spec fn is_en_us_labels(l: Labels) -> bool {
    &&& l.html_lang@ == "en"@
    &&& l.doc_title@ == "Database Dictionary"@
    &&& l.database_name@ == "Database"@
    &&& l.document_version@ == "Version"@
    &&& l.document_description@ == "Document"@
    &&& l.table_directory@ == "Tables"@
    &&& l.sequence@ == "No."@
    &&& l.table_name@ == "Table"@
    &&& l.description@ == "Description"@
    &&& l.back_to_index@ == "Back to index"@
    &&& l.data_columns@ == "Columns"@
    &&& l.column_name@ == "Column"@
    &&& l.data_type@ == "Type"@
    &&& l.nullable@ == "Nullable"@
    &&& l.primary_key@ == "Primary Key"@
    &&& l.default_value@ == "Default"@
    &&& l.extra@ == "Extra"@
    &&& l.indexes@ == "Indexes"@
    &&& l.index_name@ == "Index"@
    &&& l.unique@ == "Unique"@
    &&& l.columns@ == "Columns"@
    &&& l.yes@ == "YES"@
    &&& l.no@ == "NO"@
}

/// Whether the configured language selects the English labels: `en` or
/// `en-US` in any ASCII case, around blanks; anything else, and no setting,
/// selects the Chinese labels.
pub open spec fn wants_english(language: Option<String>) -> bool {
    match language {
        Some(l) => {
            let k = lower_seq(trim_seq(l@));
            k == "en"@ || k == "en-us"@
        },
        None => false,
    }
}

impl Labels {
    pub fn zh_cn() -> (r: Self)
        ensures
            is_zh_cn_labels(r),
    {
        Labels {
            html_lang: owned("zh-CN"),
            doc_title: owned("数据库设计文档"),
            database_name: owned("数据库名"),
            document_version: owned("文档版本"),
            document_description: owned("文档描述"),
            table_directory: owned("表清单"),
            sequence: owned("序号"),
            table_name: owned("表名"),
            description: owned("说明"),
            back_to_index: owned("返回目录"),
            data_columns: owned("数据列"),
            column_name: owned("列名"),
            data_type: owned("数据类型"),
            nullable: owned("允许空"),
            primary_key: owned("主键"),
            default_value: owned("默认值"),
            extra: owned("附加属性"),
            indexes: owned("索引"),
            index_name: owned("索引名"),
            unique: owned("唯一"),
            columns: owned("列"),
            yes: owned("Y"),
            no: owned("N"),
        }
    }

    pub fn en_us() -> (r: Self)
        ensures
            is_en_us_labels(r),
    {
        Labels {
            html_lang: owned("en"),
            doc_title: owned("Database Dictionary"),
            database_name: owned("Database"),
            document_version: owned("Version"),
            document_description: owned("Document"),
            table_directory: owned("Tables"),
            sequence: owned("No."),
            table_name: owned("Table"),
            description: owned("Description"),
            back_to_index: owned("Back to index"),
            data_columns: owned("Columns"),
            column_name: owned("Column"),
            data_type: owned("Type"),
            nullable: owned("Nullable"),
            primary_key: owned("Primary Key"),
            default_value: owned("Default"),
            extra: owned("Extra"),
            indexes: owned("Indexes"),
            index_name: owned("Index"),
            unique: owned("Unique"),
            columns: owned("Columns"),
            yes: owned("YES"),
            no: owned("NO"),
        }
    }

    /// The labels for the configured output language.
    pub fn from_engine(engine: &OutputConfig) -> (r: Result<Self, String>)
        ensures
            match r {
                Ok(l) => if wants_english(engine.language) {
                    is_en_us_labels(l)
                } else {
                    is_zh_cn_labels(l)
                },
                Err(_) => false,
            },
    {
        let english = match &engine.language {
            Some(language) => {
                let v = chars_of(language.as_str());
                let t = trim_chars(v.as_slice());
                let k = lower_chars(t.as_slice());
                chars_eq(k.as_slice(), chars_of("en").as_slice()) || chars_eq(
                    k.as_slice(),
                    chars_of("en-us").as_slice(),
                )
            },
            None => false,
        };
        if english {
            Ok(Labels::en_us())
        } else {
            Ok(Labels::zh_cn())
        }
    }

    /// The label for a yes/no value.
    pub fn bool(&self, value: bool) -> (r: &str)
        ensures
            r@ == yes_no(*self, value),
    {
        if value {
            self.yes.as_str()
        } else {
            self.no.as_str()
        }
    }
}

/// The label for a yes/no value.
pub open spec fn yes_no(l: Labels, value: bool) -> Seq<char> {
    if value {
        l.yes@
    } else {
        l.no@
    }
}

// ---------------------------------------------------------------------------
// Escaping
// ---------------------------------------------------------------------------

/// A character in a Markdown table cell: `|` escaped, line breaks as blanks.
pub open spec fn md_cell_char(c: char) -> Seq<char> {
    if c == '|' {
        seq!['\\', '|']
    } else if c == '\n' {
        seq![' ']
    } else {
        seq![c]
    }
}

/// Text for a Markdown table cell.
pub open spec fn markdown_cell_seq(value: Seq<char>) -> Seq<char> {
    value.flat_map(|c: char| md_cell_char(c))
}

/// A character in HTML text: `&`, `<`, `>` and `"` as entities.
pub open spec fn html_char(c: char) -> Seq<char> {
    if c == '&' {
        "&amp;"@
    } else if c == '<' {
        "&lt;"@
    } else if c == '>' {
        "&gt;"@
    } else if c == '"' {
        "&quot;"@
    } else {
        seq![c]
    }
}

/// Text escaped for HTML content.
pub open spec fn escape_html_seq(value: Seq<char>) -> Seq<char> {
    value.flat_map(|c: char| html_char(c))
}

/// A character in an HTML attribute value: as in content, and `'` as an
/// entity too.
pub open spec fn html_attr_char(c: char) -> Seq<char> {
    if c == '\'' {
        "&#39;"@
    } else {
        html_char(c)
    }
}

/// Text escaped for an HTML attribute value.
pub open spec fn escape_html_attr_seq(value: Seq<char>) -> Seq<char> {
    value.flat_map(|c: char| html_attr_char(c))
}

pub fn markdown_cell(value: &str) -> (r: String)
    ensures
        r@ == markdown_cell_seq(value@),
{
    let v = chars_of(value);
    let mut r = String::new();
    let mut i: usize = 0;
    while i < v.len()
        invariant
            i <= v@.len(),
            r@ == v@.take(i as int).flat_map(|c: char| md_cell_char(c)),
        decreases v@.len() - i,
    {
        let c = v[i];
        let ghost before = r@;
        if c == '|' {
            push_char(&mut r, '\\');
            push_char(&mut r, '|');
        } else if c == '\n' {
            push_char(&mut r, ' ');
        } else {
            push_char(&mut r, c);
        }
        assert(r@ =~= before + md_cell_char(c));
        proof {
            v@.lemma_flat_map_take_append(|c: char| md_cell_char(c), i as int);
        }
        i = i + 1;
    }
    assert(v@.take(v@.len() as int) =~= v@);
    r
}

fn push_escaped(out: &mut String, value: &str, attr: bool)
    ensures
        final(out)@ == old(out)@ + if attr {
            escape_html_attr_seq(value@)
        } else {
            escape_html_seq(value@)
        },
{
    let v = chars_of(value);
    let ghost start = out@;
    let ghost f = if attr {
        |c: char| html_attr_char(c)
    } else {
        |c: char| html_char(c)
    };
    let mut i: usize = 0;
    while i < v.len()
        invariant
            i <= v@.len(),
            f == (if attr {
                |c: char| html_attr_char(c)
            } else {
                |c: char| html_char(c)
            }),
            out@ == start + v@.take(i as int).flat_map(f),
        decreases v@.len() - i,
    {
        let c = v[i];
        let ghost before = out@;
        if c == '&' {
            push_str(out, "&amp;");
        } else if c == '<' {
            push_str(out, "&lt;");
        } else if c == '>' {
            push_str(out, "&gt;");
        } else if c == '"' {
            push_str(out, "&quot;");
        } else if attr && c == '\'' {
            push_str(out, "&#39;");
        } else {
            push_char(out, c);
        }
        assert(out@ =~= before + f(c));
        proof {
            v@.lemma_flat_map_take_append(f, i as int);
        }
        assert(start + v@.take(i + 1).flat_map(f) =~= start + v@.take(i as int).flat_map(f) + f(
            c,
        ));
        i = i + 1;
    }
    assert(v@.take(v@.len() as int) =~= v@);
}

/// Appends `value` escaped for HTML content.
pub fn push_escape_html(out: &mut String, value: &str)
    ensures
        final(out)@ == old(out)@ + escape_html_seq(value@),
{
    push_escaped(out, value, false);
}

/// Appends `value` escaped for an HTML attribute value.
pub fn push_escape_html_attr(out: &mut String, value: &str)
    ensures
        final(out)@ == old(out)@ + escape_html_attr_seq(value@),
{
    push_escaped(out, value, true);
}

pub fn escape_html(value: &str) -> (r: String)
    ensures
        r@ == escape_html_seq(value@),
{
    let mut r = String::new();
    push_escape_html(&mut r, value);
    r
}

pub fn escape_html_attr(value: &str) -> (r: String)
    ensures
        r@ == escape_html_attr_seq(value@),
{
    let mut r = String::new();
    push_escape_html_attr(&mut r, value);
    r
}

} // verus!
