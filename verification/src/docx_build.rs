//! The Word document of a [`DocxPlan`], built with `docx_rs`: landscape
//! pages, green headings, light table borders and shaded header rows.

use vstd::prelude::*;
use crate::docx::{block_view, docx_plan, docx_plan_spec, plan_view, row_view, BlockView, DocxBlock, DocxGrid, DocxPlan, DocxRow};
use crate::labels::Labels;
use crate::model::DatabaseSchema;
use docx_rs::{
    BorderType, Docx, LineSpacing, PageMargin, PageOrientationType, Paragraph, Run, Shading,
    ShdType, Table as DocxTable, TableBorder, TableBorderPosition, TableBorders, TableCell,
    TableCellMargins, TableLayoutType, TableRow, WidthType,
};

verus! {

/// Heading text colour.
pub const DOC_PRIMARY_COLOR: &'static str = "17664C";

/// Body text colour.
pub const DOC_TEXT_COLOR: &'static str = "17201C";

/// Colour of table comments.
pub const DOC_MUTED_COLOR: &'static str = "68756D";

/// Fill of header cells.
pub const DOC_HEADER_FILL: &'static str = "E7F0EB";

/// Colour of table borders.
pub const DOC_BORDER_COLOR: &'static str = "CCD8D1";

/// Landscape A4 width, in twentieths of a point.
pub const DOC_PAGE_WIDTH_LANDSCAPE: u32 = 16838;

/// Landscape A4 height, in twentieths of a point.
pub const DOC_PAGE_HEIGHT_LANDSCAPE: u32 = 11906;

/// Width of every table, in twentieths of a point.
pub const DOC_TABLE_WIDTH_DXA: usize = 15360;

#[verifier::external_type_specification]
#[verifier::external_body]
pub struct ExDocx(Docx);

#[verifier::external_type_specification]
#[verifier::external_body]
pub struct ExParagraph(Paragraph);

#[verifier::external_type_specification]
#[verifier::external_body]
pub struct ExRun(Run);

#[verifier::external_type_specification]
#[verifier::external_body]
pub struct ExLineSpacing(LineSpacing);

#[verifier::external_type_specification]
#[verifier::external_body]
pub struct ExDocxTable(DocxTable);

#[verifier::external_type_specification]
#[verifier::external_body]
pub struct ExTableRow(TableRow);

#[verifier::external_type_specification]
#[verifier::external_body]
pub struct ExTableCell(TableCell);

#[verifier::external_type_specification]
#[verifier::external_body]
pub struct ExTableCellMargins(TableCellMargins);

#[verifier::external_type_specification]
#[verifier::external_body]
pub struct ExShading(Shading);

#[verifier::external_type_specification]
#[verifier::external_body]
pub struct ExTableBorders(TableBorders);

#[verifier::external_type_specification]
#[verifier::external_body]
pub struct ExTableBorder(TableBorder);

/// Page orientation.
#[derive(Clone, Copy, Debug, PartialEq, Eq, Structural)]
pub enum PageOrientation {
    Landscape,
    Portrait,
}

/// The unit of a width.
#[derive(Clone, Copy, Debug, PartialEq, Eq, Structural)]
pub enum WidthUnit {
    /// Twentieths of a point.
    Dxa,
    Auto,
    /// Fiftieths of a percent.
    Pct,
    Nil,
}

/// How a table lays out its columns.
#[derive(Clone, Copy, Debug, PartialEq, Eq, Structural)]
pub enum TableLayout {
    Fixed,
    Autofit,
}

/// The pattern of a cell shading.
#[derive(Clone, Copy, Debug, PartialEq, Eq, Structural)]
pub enum ShadingPattern {
    Nil,
    Clear,
    Solid,
}

/// The line of a border.
#[derive(Clone, Copy, Debug, PartialEq, Eq, Structural)]
pub enum BorderStyle {
    Nil,
    Single,
}

/// Which side of a table a border runs along.
#[derive(Clone, Copy, Debug, PartialEq, Eq, Structural)]
pub enum BorderSide {
    Top,
    Left,
    Bottom,
    Right,
    InsideH,
    InsideV,
}

// ---------------------------------------------------------------------------
// What the built elements hold
// ---------------------------------------------------------------------------

/// The texts and formatting of a run: bold or not, size in half points and
/// colour when set.
pub struct RunContent {
    pub texts: Seq<Seq<char>>,
    pub bold: bool,
    pub size: Option<usize>,
    pub color: Option<Seq<char>>,
}

/// A table cell: its width and unit when set, its shading (pattern, colour,
/// fill) when set, and its paragraphs, each given by its runs.
pub struct CellContent {
    pub width: Option<(usize, WidthUnit)>,
    pub shading: Option<(ShadingPattern, Seq<char>, Seq<char>)>,
    pub paragraphs: Seq<Seq<RunContent>>,
}

/// How a table is laid out: the column widths of its grid, its width and
/// unit, its layout when set, its cell margins (top, right, bottom, left)
/// when set, and its borders by side (line, size in eighths of a point,
/// colour).
pub struct TableStyle {
    pub grid: Seq<usize>,
    pub width: (usize, WidthUnit),
    pub layout: Option<TableLayout>,
    pub cell_margins: Option<(usize, usize, usize, usize)>,
    pub borders: Map<BorderSide, (BorderStyle, usize, Seq<char>)>,
}

/// The page of a document: width and height in twentieths of a point, the
/// orientation when set, and the margins (top, right, bottom, left, header,
/// footer, gutter).
pub struct PageSetup {
    pub width: u32,
    pub height: u32,
    pub orientation: Option<PageOrientation>,
    pub margin: (i32, i32, i32, i32, i32, i32, i32),
}

/// One element of a document body: a paragraph with its spacing (before,
/// after) when set and its runs, or a table with its style and its rows of
/// cells.
pub enum DocChild {
    Paragraph(Option<(Option<u32>, Option<u32>)>, Seq<RunContent>),
    Table(TableStyle, Seq<Seq<CellContent>>),
}

/// The text of each text element of a run, in order, as the run stores it.
pub uninterp spec fn run_texts(r: Run) -> Seq<Seq<char>>;

/// The formatting set on a run: bold, size, colour.
pub uninterp spec fn run_format(r: Run) -> (bool, Option<usize>, Option<Seq<char>>);

/// The runs of a paragraph, in order.
pub uninterp spec fn paragraph_runs(p: Paragraph) -> Seq<RunContent>;

/// The line spacing set on a paragraph, when set: space before and after.
pub uninterp spec fn paragraph_spacing(p: Paragraph) -> Option<(Option<u32>, Option<u32>)>;

/// The space before and after that a line spacing sets, each when set.
pub uninterp spec fn line_spacing_values(s: LineSpacing) -> (Option<u32>, Option<u32>);

/// The paragraphs of a table cell, in order.
pub uninterp spec fn cell_paragraphs(c: TableCell) -> Seq<Seq<RunContent>>;

/// The width and the shading set on a table cell, each when set.
pub uninterp spec fn cell_style(c: TableCell) -> (
    Option<(usize, WidthUnit)>,
    Option<(ShadingPattern, Seq<char>, Seq<char>)>,
);

/// The pattern, colour and fill of a shading.
pub uninterp spec fn shading_values(s: Shading) -> (ShadingPattern, Seq<char>, Seq<char>);

/// The cells of a table row, in order.
pub uninterp spec fn row_cells(r: TableRow) -> Seq<CellContent>;

/// The rows of a table, in order.
pub uninterp spec fn table_rows(t: DocxTable) -> Seq<Seq<CellContent>>;

/// The layout of a table.
pub uninterp spec fn table_style(t: DocxTable) -> TableStyle;

/// The cell margins top, right, bottom and left.
pub uninterp spec fn cell_margins_values(m: TableCellMargins) -> (usize, usize, usize, usize);

/// The borders that are set, by side: line, size, colour.
pub uninterp spec fn borders_values(b: TableBorders) -> Map<BorderSide, (BorderStyle, usize, Seq<char>)>;

/// The side, line, size and colour of a border.
pub uninterp spec fn border_values(b: TableBorder) -> (BorderSide, BorderStyle, usize, Seq<char>);

/// The paragraphs and tables of a document body, in order.
pub uninterp spec fn docx_children(d: Docx) -> Seq<DocChild>;

/// The page of a document.
pub uninterp spec fn docx_page(d: Docx) -> PageSetup;

/// A character as a run stores it: the XML special characters as entities,
/// line breaks and carriage returns dropped, any other character kept.
pub open spec fn stored_char(c: char) -> Seq<char> {
    if c == '&' {
        "&amp;"@
    } else if c == '<' {
        "&lt;"@
    } else if c == '>' {
        "&gt;"@
    } else if c == '"' {
        "&quot;"@
    } else if c == '\'' {
        "&apos;"@
    } else if c == '\n' || c == '\r' {
        Seq::<char>::empty()
    } else {
        seq![c]
    }
}

/// A text as a run stores it, character by character.
pub open spec fn stored_text(s: Seq<char>) -> Seq<char> {
    s.flat_map(|c: char| stored_char(c))
}

/// The content of a run.
pub open spec fn run_content(r: Run) -> RunContent {
    RunContent {
        texts: run_texts(r),
        bold: run_format(r).0,
        size: run_format(r).1,
        color: run_format(r).2,
    }
}

/// The content of a table cell.
pub open spec fn cell_view(c: TableCell) -> CellContent {
    CellContent { width: cell_style(c).0, shading: cell_style(c).1, paragraphs: cell_paragraphs(c) }
}

/// A run of one text with the given formatting.
pub open spec fn styled_run_content(value: Seq<char>, bold: bool, size: usize, color: Seq<char>) -> RunContent {
    RunContent {
        texts: seq![stored_text(value)],
        bold,
        size: Some(size),
        color: Some(color),
    }
}

/// The same border on every side of a table and between all its cells.
pub open spec fn uniform_borders(border: (BorderStyle, usize, Seq<char>)) -> Map<
    BorderSide,
    (BorderStyle, usize, Seq<char>),
> {
    Map::new(|s: BorderSide| true, |s: BorderSide| border)
}

/// No border on any side.
pub open spec fn no_borders() -> Map<BorderSide, (BorderStyle, usize, Seq<char>)> {
    Map::empty()
}

/// Thin single borders in the border colour.
pub open spec fn light_borders() -> Map<BorderSide, (BorderStyle, usize, Seq<char>)> {
    uniform_borders((BorderStyle::Single, 2usize, DOC_BORDER_COLOR@))
}

/// The layout of every table: the given column widths, the full text width,
/// fixed layout, compact cell margins and light borders.
pub open spec fn grid_table_style(widths: Seq<usize>) -> TableStyle {
    TableStyle {
        grid: widths,
        width: (DOC_TABLE_WIDTH_DXA, WidthUnit::Dxa),
        layout: Some(TableLayout::Fixed),
        cell_margins: Some((70usize, 80usize, 70usize, 80usize)),
        borders: light_borders(),
    }
}

/// The page of every document: landscape A4, half-inch margins and a
/// quarter inch for header and footer.
pub open spec fn dictionary_page() -> PageSetup {
    PageSetup {
        width: DOC_PAGE_WIDTH_LANDSCAPE,
        height: DOC_PAGE_HEIGHT_LANDSCAPE,
        orientation: Some(PageOrientation::Landscape),
        margin: (720i32, 720i32, 720i32, 720i32, 360i32, 360i32, 0i32),
    }
}

/// The width a grid gives column `i`, if it gives one.
pub open spec fn column_width(widths: Seq<usize>, i: int) -> Option<usize> {
    if 0 <= i < widths.len() {
        Some(widths[i])
    } else {
        None
    }
}

/// A table cell holding `value`: one paragraph of one run, bold in the
/// primary colour and shaded in a header row; as wide as its column when
/// the grid gives a width.
pub open spec fn cell_content(value: Seq<char>, header: bool, width: Option<usize>) -> CellContent {
    CellContent {
        width: match width {
            Some(w) => Some((w, WidthUnit::Dxa)),
            None => None,
        },
        shading: if header {
            Some((ShadingPattern::Clear, "auto"@, DOC_HEADER_FILL@))
        } else {
            None
        },
        paragraphs: if header {
            seq![seq![styled_run_content(value, true, 18, DOC_PRIMARY_COLOR@)]]
        } else {
            seq![seq![styled_run_content(value, false, 17, DOC_TEXT_COLOR@)]]
        },
    }
}

/// The cells of a row of the plan in a table with the given column widths.
pub open spec fn row_content(row: (bool, Seq<Seq<char>>), widths: Seq<usize>) -> Seq<CellContent> {
    Seq::new(row.1.len(), |i: int| cell_content(row.1[i], row.0, column_width(widths, i)))
}

/// The spacing of a paragraph with space before and after.
pub open spec fn spacing(before: u32, after: u32) -> Option<(Option<u32>, Option<u32>)> {
    Some((Some(before), Some(after)))
}

/// The body element for a block of the plan: headings and paragraphs with
/// their spacing and styles, a spacer as one blank run with space after it,
/// a table with its layout and rows.
pub open spec fn block_child(b: BlockView) -> DocChild {
    match b {
        BlockView::Title(t) => DocChild::Paragraph(
            spacing(0, 220),
            seq![styled_run_content(t, true, 32, DOC_PRIMARY_COLOR@)],
        ),
        BlockView::Section(t) => DocChild::Paragraph(
            spacing(260, 120),
            seq![styled_run_content(t, true, 24, DOC_PRIMARY_COLOR@)],
        ),
        BlockView::Subsection(t) => DocChild::Paragraph(
            spacing(140, 80),
            seq![styled_run_content(t, true, 20, DOC_TEXT_COLOR@)],
        ),
        BlockView::Text(t) => DocChild::Paragraph(
            spacing(40, 120),
            seq![styled_run_content(t, false, 20, DOC_MUTED_COLOR@)],
        ),
        BlockView::Spacer(after) => DocChild::Paragraph(
            Some((None, Some(after))),
            seq![styled_run_content(" "@, false, 2, "FFFFFF"@)],
        ),
        BlockView::Grid(widths, rows) => DocChild::Table(
            grid_table_style(widths),
            rows.map_values(|row: (bool, Seq<Seq<char>>)| row_content(row, widths)),
        ),
    }
}

// ---------------------------------------------------------------------------
// Calls into docx_rs
// ---------------------------------------------------------------------------

/// Calls `Docx::new`: a document without paragraphs or tables. What page it
/// starts with is not stated here; the document builder sets every part of
/// it.
#[verifier::external_body]
fn docx_new() -> (r: Docx)
    ensures
        docx_children(r) == Seq::<DocChild>::empty(),
{
    Docx::new()
}

/// Calls `Docx::page_size`, which puts in a new page size of the given
/// width and height, without orientation, and keeps the margins.
#[verifier::external_body]
fn docx_page_size(d: Docx, w: u32, h: u32) -> (r: Docx)
    ensures
        docx_children(r) == docx_children(d),
        docx_page(r) == (PageSetup {
            width: w,
            height: h,
            orientation: None,
            margin: docx_page(d).margin,
        }),
{
    d.page_size(w, h)
}

/// Calls `Docx::page_orient`, which sets the orientation only.
#[verifier::external_body]
fn docx_page_orient(d: Docx, o: PageOrientation) -> (r: Docx)
    ensures
        docx_children(r) == docx_children(d),
        docx_page(r) == (PageSetup {
            width: docx_page(d).width,
            height: docx_page(d).height,
            orientation: Some(o),
            margin: docx_page(d).margin,
        }),
{
    d.page_orient(
        match o {
            PageOrientation::Landscape => PageOrientationType::Landscape,
            PageOrientation::Portrait => PageOrientationType::Portrait,
        },
    )
}

/// Calls `Docx::page_margin` with a `PageMargin` of the seven given values,
/// which sets the margins only.
#[verifier::external_body]
fn docx_page_margin(
    d: Docx,
    top: i32,
    right: i32,
    bottom: i32,
    left: i32,
    header: i32,
    footer: i32,
    gutter: i32,
) -> (r: Docx)
    ensures
        docx_children(r) == docx_children(d),
        docx_page(r) == (PageSetup {
            width: docx_page(d).width,
            height: docx_page(d).height,
            orientation: docx_page(d).orientation,
            margin: (top, right, bottom, left, header, footer, gutter),
        }),
{
    d.page_margin(PageMargin { top, right, bottom, left, header, footer, gutter })
}

/// Calls `Docx::add_paragraph`, which appends the paragraph to the body.
#[verifier::external_body]
fn docx_add_paragraph(d: Docx, p: Paragraph) -> (r: Docx)
    ensures
        docx_children(r) == docx_children(d).push(
            DocChild::Paragraph(paragraph_spacing(p), paragraph_runs(p)),
        ),
        docx_page(r) == docx_page(d),
{
    d.add_paragraph(p)
}

/// Calls `Docx::add_table`, which appends the table to the body.
#[verifier::external_body]
fn docx_add_table(d: Docx, t: DocxTable) -> (r: Docx)
    ensures
        docx_children(r) == docx_children(d).push(DocChild::Table(table_style(t), table_rows(t))),
        docx_page(r) == docx_page(d),
{
    d.add_table(t)
}

/// Calls `Paragraph::new`: a paragraph without runs or spacing.
#[verifier::external_body]
fn paragraph_new() -> (r: Paragraph)
    ensures
        paragraph_runs(r) == Seq::<RunContent>::empty(),
        paragraph_spacing(r) == None::<(Option<u32>, Option<u32>)>,
{
    Paragraph::new()
}

/// Calls `Paragraph::line_spacing`, which sets the spacing only.
#[verifier::external_body]
fn paragraph_line_spacing(p: Paragraph, s: LineSpacing) -> (r: Paragraph)
    ensures
        paragraph_runs(r) == paragraph_runs(p),
        paragraph_spacing(r) == Some(line_spacing_values(s)),
{
    p.line_spacing(s)
}

/// Calls `Paragraph::add_run`, which appends the run.
#[verifier::external_body]
fn paragraph_add_run(p: Paragraph, run: Run) -> (r: Paragraph)
    ensures
        paragraph_runs(r) == paragraph_runs(p).push(run_content(run)),
        paragraph_spacing(r) == paragraph_spacing(p),
{
    p.add_run(run)
}

/// Calls `LineSpacing::new`: no space before or after.
#[verifier::external_body]
fn line_spacing_new() -> (r: LineSpacing)
    ensures
        line_spacing_values(r) == (None::<u32>, None::<u32>),
{
    LineSpacing::new()
}

/// Calls `LineSpacing::before`, which sets the space before only.
#[verifier::external_body]
fn line_spacing_before(s: LineSpacing, v: u32) -> (r: LineSpacing)
    ensures
        line_spacing_values(r) == (Some(v), line_spacing_values(s).1),
{
    s.before(v)
}

/// Calls `LineSpacing::after`, which sets the space after only.
#[verifier::external_body]
fn line_spacing_after(s: LineSpacing, v: u32) -> (r: LineSpacing)
    ensures
        line_spacing_values(r) == (line_spacing_values(s).0, Some(v)),
{
    s.after(v)
}

/// Calls `Run::new`: a run without text or formatting.
#[verifier::external_body]
fn run_new() -> (r: Run)
    ensures
        run_texts(r) == Seq::<Seq<char>>::empty(),
        run_format(r) == (false, None::<usize>, None::<Seq<char>>),
{
    Run::new()
}

/// Calls `Run::add_text`, which appends a text element holding the text with
/// its line breaks removed and then escaped: `& < > " '` become entities and
/// carriage returns are dropped.
#[verifier::external_body]
fn run_add_text(run: Run, text: &str) -> (r: Run)
    ensures
        run_texts(r) == run_texts(run).push(stored_text(text@)),
        run_format(r) == run_format(run),
{
    run.add_text(text)
}

/// Calls `Run::bold`, which makes the run bold.
#[verifier::external_body]
fn run_bold(run: Run) -> (r: Run)
    ensures
        run_texts(r) == run_texts(run),
        run_format(r) == (true, run_format(run).1, run_format(run).2),
{
    run.bold()
}

/// Calls `Run::size`, which sets the size in half points.
#[verifier::external_body]
fn run_size(run: Run, size: usize) -> (r: Run)
    ensures
        run_texts(r) == run_texts(run),
        run_format(r) == (run_format(run).0, Some(size), run_format(run).2),
{
    run.size(size)
}

/// Calls `Run::color`, which sets the colour.
#[verifier::external_body]
fn run_color(run: Run, color: &str) -> (r: Run)
    ensures
        run_texts(r) == run_texts(run),
        run_format(r) == (run_format(run).0, run_format(run).1, Some(color@)),
{
    run.color(color)
}

/// Calls `Table::new`: a table of the given rows, without column grid, of
/// automatic width, with no layout or cell margins set, and a thin black
/// single border on every side and between all cells.
#[verifier::external_body]
fn table_new(rows: Vec<TableRow>) -> (r: DocxTable)
    ensures
        table_rows(r) == rows@.map_values(|x: TableRow| row_cells(x)),
        table_style(r) == (TableStyle {
            grid: Seq::<usize>::empty(),
            width: (0usize, WidthUnit::Auto),
            layout: None,
            cell_margins: None,
            borders: uniform_borders((BorderStyle::Single, 2usize, "000000"@)),
        }),
{
    DocxTable::new(rows)
}

/// Calls `Table::width`, which sets the width only.
#[verifier::external_body]
fn table_width(t: DocxTable, w: usize, unit: WidthUnit) -> (r: DocxTable)
    ensures
        table_rows(r) == table_rows(t),
        table_style(r) == (TableStyle { width: (w, unit), ..table_style(t) }),
{
    t.width(
        w,
        match unit {
            WidthUnit::Dxa => WidthType::Dxa,
            WidthUnit::Auto => WidthType::Auto,
            WidthUnit::Pct => WidthType::Pct,
            WidthUnit::Nil => WidthType::Nil,
        },
    )
}

/// Calls `Table::layout`, which sets the layout only.
#[verifier::external_body]
fn table_layout(t: DocxTable, layout: TableLayout) -> (r: DocxTable)
    ensures
        table_rows(r) == table_rows(t),
        table_style(r) == (TableStyle { layout: Some(layout), ..table_style(t) }),
{
    t.layout(
        match layout {
            TableLayout::Fixed => TableLayoutType::Fixed,
            TableLayout::Autofit => TableLayoutType::Autofit,
        },
    )
}

/// Calls `Table::set_grid`, which sets the column widths of the grid.
#[verifier::external_body]
fn table_set_grid(t: DocxTable, grid: Vec<usize>) -> (r: DocxTable)
    ensures
        table_rows(r) == table_rows(t),
        table_style(r) == (TableStyle { grid: grid@, ..table_style(t) }),
{
    t.set_grid(grid)
}

/// Calls `Table::margins`, which sets the cell margins only.
#[verifier::external_body]
fn table_margins(t: DocxTable, m: TableCellMargins) -> (r: DocxTable)
    ensures
        table_rows(r) == table_rows(t),
        table_style(r) == (TableStyle { cell_margins: Some(cell_margins_values(m)), ..table_style(t) }),
{
    t.margins(m)
}

/// Calls `Table::set_borders`, which sets the borders only.
#[verifier::external_body]
fn table_set_borders(t: DocxTable, b: TableBorders) -> (r: DocxTable)
    ensures
        table_rows(r) == table_rows(t),
        table_style(r) == (TableStyle { borders: borders_values(b), ..table_style(t) }),
{
    t.set_borders(b)
}

/// Calls `TableCellMargins::new`. Its default margins are not stated here:
/// the caller sets all four.
#[verifier::external_body]
fn cell_margins_new() -> TableCellMargins {
    TableCellMargins::new()
}

/// Calls `TableCellMargins::margin`, which sets top, right, bottom and left.
#[verifier::external_body]
fn cell_margins_margin(m: TableCellMargins, top: usize, right: usize, bottom: usize, left: usize) -> (r:
    TableCellMargins)
    ensures
        cell_margins_values(r) == (top, right, bottom, left),
{
    m.margin(top, right, bottom, left)
}

/// Calls `TableRow::new`: a row of the given cells.
#[verifier::external_body]
fn row_new(cells: Vec<TableCell>) -> (r: TableRow)
    ensures
        row_cells(r) == cells@.map_values(|c: TableCell| cell_view(c)),
{
    TableRow::new(cells)
}

/// Calls `TableCell::new`: a cell without paragraphs, width or shading.
#[verifier::external_body]
fn cell_new() -> (r: TableCell)
    ensures
        cell_paragraphs(r) == Seq::<Seq<RunContent>>::empty(),
        cell_style(r) == (
            None::<(usize, WidthUnit)>,
            None::<(ShadingPattern, Seq<char>, Seq<char>)>,
        ),
{
    TableCell::new()
}

/// Calls `TableCell::add_paragraph`, which appends the paragraph.
#[verifier::external_body]
fn cell_add_paragraph(c: TableCell, p: Paragraph) -> (r: TableCell)
    ensures
        cell_paragraphs(r) == cell_paragraphs(c).push(paragraph_runs(p)),
        cell_style(r) == cell_style(c),
{
    c.add_paragraph(p)
}

/// Calls `TableCell::width`, which sets the width only.
#[verifier::external_body]
fn cell_width(c: TableCell, w: usize, unit: WidthUnit) -> (r: TableCell)
    ensures
        cell_paragraphs(r) == cell_paragraphs(c),
        cell_style(r) == (Some((w, unit)), cell_style(c).1),
{
    c.width(
        w,
        match unit {
            WidthUnit::Dxa => WidthType::Dxa,
            WidthUnit::Auto => WidthType::Auto,
            WidthUnit::Pct => WidthType::Pct,
            WidthUnit::Nil => WidthType::Nil,
        },
    )
}

/// Calls `TableCell::shading`, which sets the shading only.
#[verifier::external_body]
fn cell_shading(c: TableCell, s: Shading) -> (r: TableCell)
    ensures
        cell_paragraphs(r) == cell_paragraphs(c),
        cell_style(r) == (cell_style(c).0, Some(shading_values(s))),
{
    c.shading(s)
}

/// Calls `Shading::new`: a clear pattern in automatic colour on white.
#[verifier::external_body]
fn shading_new() -> (r: Shading)
    ensures
        shading_values(r) == (ShadingPattern::Clear, "auto"@, "FFFFFF"@),
{
    Shading::new()
}

/// Calls `Shading::shd_type`, which sets the pattern only.
#[verifier::external_body]
fn shading_shd_type(s: Shading, pattern: ShadingPattern) -> (r: Shading)
    ensures
        shading_values(r) == (pattern, shading_values(s).1, shading_values(s).2),
{
    s.shd_type(
        match pattern {
            ShadingPattern::Nil => ShdType::Nil,
            ShadingPattern::Clear => ShdType::Clear,
            ShadingPattern::Solid => ShdType::Solid,
        },
    )
}

/// Calls `Shading::fill`, which sets the fill only.
#[verifier::external_body]
fn shading_fill(s: Shading, fill: &str) -> (r: Shading)
    ensures
        shading_values(r) == (shading_values(s).0, shading_values(s).1, fill@),
{
    s.fill(fill)
}

/// Calls `TableBorders::with_empty`: no border on any side.
#[verifier::external_body]
fn borders_with_empty() -> (r: TableBorders)
    ensures
        borders_values(r) == no_borders(),
{
    TableBorders::with_empty()
}

/// Calls `TableBorders::set`, which puts the border on its side.
#[verifier::external_body]
fn borders_set(b: TableBorders, border: TableBorder) -> (r: TableBorders)
    ensures
        borders_values(r) == borders_values(b).insert(
            border_values(border).0,
            (border_values(border).1, border_values(border).2, border_values(border).3),
        ),
{
    b.set(border)
}

/// Calls `TableBorder::new` for a side: a thin black single line.
#[verifier::external_body]
fn border_new(side: BorderSide) -> (r: TableBorder)
    ensures
        border_values(r) == (side, BorderStyle::Single, 2usize, "000000"@),
{
    TableBorder::new(
        match side {
            BorderSide::Top => TableBorderPosition::Top,
            BorderSide::Left => TableBorderPosition::Left,
            BorderSide::Bottom => TableBorderPosition::Bottom,
            BorderSide::Right => TableBorderPosition::Right,
            BorderSide::InsideH => TableBorderPosition::InsideH,
            BorderSide::InsideV => TableBorderPosition::InsideV,
        },
    )
}

/// Calls `TableBorder::border_type`, which sets the line only.
#[verifier::external_body]
fn border_type(b: TableBorder, style: BorderStyle) -> (r: TableBorder)
    ensures
        border_values(r) == (border_values(b).0, style, border_values(b).2, border_values(b).3),
{
    b.border_type(
        match style {
            BorderStyle::Nil => BorderType::Nil,
            BorderStyle::Single => BorderType::Single,
        },
    )
}

/// Calls `TableBorder::size`, which sets the size only.
#[verifier::external_body]
fn border_size(b: TableBorder, size: usize) -> (r: TableBorder)
    ensures
        border_values(r) == (border_values(b).0, border_values(b).1, size, border_values(b).3),
{
    b.size(size)
}

/// Calls `TableBorder::color`, which sets the colour only.
#[verifier::external_body]
fn border_color(b: TableBorder, color: &str) -> (r: TableBorder)
    ensures
        border_values(r) == (border_values(b).0, border_values(b).1, border_values(b).2, color@),
{
    b.color(color)
}

// ---------------------------------------------------------------------------
// Styles
// ---------------------------------------------------------------------------

fn spaced_paragraph(before: u32, after: u32) -> (r: Paragraph)
    ensures
        paragraph_runs(r) == Seq::<RunContent>::empty(),
        paragraph_spacing(r) == spacing(before, after),
{
    let s = line_spacing_after(line_spacing_before(line_spacing_new(), before), after);
    paragraph_line_spacing(paragraph_new(), s)
}

fn styled_run(value: &str, bold: bool, size: usize, color: &str) -> (r: Run)
    ensures
        run_content(r) == styled_run_content(value@, bold, size, color@),
{
    let mut run = run_add_text(run_new(), value);
    if bold {
        run = run_bold(run);
    }
    let r = run_color(run_size(run, size), color);
    assert(run_texts(r) =~= seq![stored_text(value@)]);
    r
}

/// The document title.
fn title_heading(value: &str) -> (r: Paragraph)
    ensures
        DocChild::Paragraph(paragraph_spacing(r), paragraph_runs(r)) == block_child(
            BlockView::Title(value@),
        ),
{
    paragraph_add_run(spaced_paragraph(0, 220), styled_run(value, true, 32, DOC_PRIMARY_COLOR))
}

/// A section heading.
fn section_heading(value: &str) -> (r: Paragraph)
    ensures
        DocChild::Paragraph(paragraph_spacing(r), paragraph_runs(r)) == block_child(
            BlockView::Section(value@),
        ),
{
    paragraph_add_run(spaced_paragraph(260, 120), styled_run(value, true, 24, DOC_PRIMARY_COLOR))
}

/// A subsection heading.
fn subsection_heading(value: &str) -> (r: Paragraph)
    ensures
        DocChild::Paragraph(paragraph_spacing(r), paragraph_runs(r)) == block_child(
            BlockView::Subsection(value@),
        ),
{
    paragraph_add_run(spaced_paragraph(140, 80), styled_run(value, true, 20, DOC_TEXT_COLOR))
}

/// A plain paragraph in the muted colour.
fn paragraph(value: &str) -> (r: Paragraph)
    ensures
        DocChild::Paragraph(paragraph_spacing(r), paragraph_runs(r)) == block_child(
            BlockView::Text(value@),
        ),
{
    paragraph_add_run(spaced_paragraph(40, 120), styled_run(value, false, 20, DOC_MUTED_COLOR))
}

/// An almost invisible paragraph that leaves `after` space below it.
fn spacer_paragraph(after: u32) -> (r: Paragraph)
    ensures
        DocChild::Paragraph(paragraph_spacing(r), paragraph_runs(r)) == block_child(
            BlockView::Spacer(after),
        ),
{
    let s = line_spacing_after(line_spacing_new(), after);
    paragraph_add_run(paragraph_line_spacing(paragraph_new(), s), styled_run(" ", false, 2, "FFFFFF"))
}

/// The position of a side in the order the borders are set.
spec fn side_rank(s: BorderSide) -> int {
    match s {
        BorderSide::Top => 0,
        BorderSide::Left => 1,
        BorderSide::Bottom => 2,
        BorderSide::Right => 3,
        BorderSide::InsideH => 4,
        BorderSide::InsideV => 5,
    }
}

/// Thin single borders on every side and between all cells.
fn light_table_borders() -> (r: TableBorders)
    ensures
        borders_values(r) == light_borders(),
{
    let sides = [
        BorderSide::Top,
        BorderSide::Left,
        BorderSide::Bottom,
        BorderSide::Right,
        BorderSide::InsideH,
        BorderSide::InsideV,
    ];
    let ghost light = (BorderStyle::Single, 2usize, DOC_BORDER_COLOR@);
    let mut borders = borders_with_empty();
    assert(borders_values(borders) =~= Map::new(|s: BorderSide| side_rank(s) < 0, |s: BorderSide| light));
    let mut i: usize = 0;
    while i < 6
        invariant
            i <= 6,
            sides@ == seq![
                BorderSide::Top,
                BorderSide::Left,
                BorderSide::Bottom,
                BorderSide::Right,
                BorderSide::InsideH,
                BorderSide::InsideV,
            ],
            light == (BorderStyle::Single, 2usize, DOC_BORDER_COLOR@),
            borders_values(borders) =~= Map::new(|s: BorderSide| side_rank(s) < i, |s: BorderSide| light),
        decreases 6 - i,
    {
        let border = border_color(border_size(border_type(border_new(sides[i]), BorderStyle::Single), 2), DOC_BORDER_COLOR);
        let ghost before = borders_values(borders);
        borders = borders_set(borders, border);
        proof {
            assert(side_rank(sides@[i as int]) == i);
            assert forall|s: BorderSide| side_rank(s) == i implies s == sides@[i as int] by {
                match s {
                    BorderSide::Top => {},
                    BorderSide::Left => {},
                    BorderSide::Bottom => {},
                    BorderSide::Right => {},
                    BorderSide::InsideH => {},
                    BorderSide::InsideV => {},
                }
            }
            assert(borders_values(borders) =~= Map::new(
                |s: BorderSide| side_rank(s) < i + 1,
                |s: BorderSide| light,
            ));
        }
        i = i + 1;
    }
    assert forall|s: BorderSide| side_rank(s) < 6 by {
        match s {
            BorderSide::Top => {},
            BorderSide::Left => {},
            BorderSide::Bottom => {},
            BorderSide::Right => {},
            BorderSide::InsideH => {},
            BorderSide::InsideV => {},
        }
    }
    assert(borders_values(borders) =~= light_borders());
    borders
}

/// One cell: bold and shaded in a header row, with the width of its column
/// when the table gives one.
fn docx_cell(value: &str, header: bool, width: Option<usize>) -> (r: TableCell)
    ensures
        cell_view(r) == cell_content(value@, header, width),
{
    let run = if header {
        styled_run(value, true, 18, DOC_PRIMARY_COLOR)
    } else {
        styled_run(value, false, 17, DOC_TEXT_COLOR)
    };
    let mut cell = cell_add_paragraph(cell_new(), paragraph_add_run(paragraph_new(), run));
    assert(cell_paragraphs(cell) =~= cell_content(value@, header, width).paragraphs);
    if let Some(w) = width {
        cell = cell_width(cell, w, WidthUnit::Dxa);
    }
    if header {
        cell_shading(cell, shading_fill(shading_shd_type(shading_new(), ShadingPattern::Clear), DOC_HEADER_FILL))
    } else {
        cell
    }
}

fn docx_row(row: &DocxRow, widths: &Vec<usize>) -> (r: TableRow)
    ensures
        row_cells(r) == row_content(row_view(*row), widths@),
{
    let mut cells: Vec<TableCell> = Vec::new();
    let mut i: usize = 0;
    while i < row.cells.len()
        invariant
            i <= row.cells@.len(),
            cells@.len() == i,
            forall|k: int|
                0 <= k < i ==> cell_view(#[trigger] cells@[k]) == cell_content(
                    row.cells@[k]@,
                    row.header,
                    column_width(widths@, k),
                ),
        decreases row.cells@.len() - i,
    {
        let width = if i < widths.len() {
            Some(widths[i])
        } else {
            None
        };
        cells.push(docx_cell(row.cells[i].as_str(), row.header, width));
        i = i + 1;
    }
    let r = row_new(cells);
    assert(row_cells(r) =~= row_content(row_view(*row), widths@));
    r
}

/// A table of the given rows, fixed to the page width with the given column
/// widths.
fn styled_docx_table(grid: &DocxGrid) -> (r: DocxTable)
    ensures
        table_rows(r) == grid.rows@.map_values(|x: DocxRow| row_content(row_view(x), grid.widths@)),
        table_style(r) == grid_table_style(grid.widths@),
{
    let mut rows: Vec<TableRow> = Vec::new();
    let mut i: usize = 0;
    while i < grid.rows.len()
        invariant
            i <= grid.rows@.len(),
            rows@.len() == i,
            forall|k: int|
                0 <= k < i ==> row_cells(#[trigger] rows@[k]) == row_content(
                    row_view(grid.rows@[k]),
                    grid.widths@,
                ),
        decreases grid.rows@.len() - i,
    {
        rows.push(docx_row(&grid.rows[i], &grid.widths));
        i = i + 1;
    }
    let mut widths: Vec<usize> = Vec::new();
    let mut j: usize = 0;
    while j < grid.widths.len()
        invariant
            j <= grid.widths@.len(),
            widths@ == grid.widths@.take(j as int),
        decreases grid.widths@.len() - j,
    {
        widths.push(grid.widths[j]);
        assert(grid.widths@.take(j + 1) =~= grid.widths@.take(j as int).push(grid.widths@[j as int]));
        j = j + 1;
    }
    assert(grid.widths@.take(grid.widths@.len() as int) =~= grid.widths@);
    let t0 = table_new(rows);
    assert(table_rows(t0) =~= grid.rows@.map_values(|x: DocxRow| row_content(row_view(x), grid.widths@)));
    let table = table_layout(
        table_width(t0, DOC_TABLE_WIDTH_DXA, WidthUnit::Dxa),
        TableLayout::Fixed,
    );
    let margins = cell_margins_margin(cell_margins_new(), 70, 80, 70, 80);
    let r = table_set_borders(table_margins(table_set_grid(table, widths), margins), light_table_borders());
    assert(table_style(r) == grid_table_style(grid.widths@));
    r
}

/// The Word document of a plan: landscape A4 pages with compact margins,
/// then each block in order.
pub fn build_docx(plan: &DocxPlan) -> (r: Docx)
    ensures
        docx_children(r) == plan_view(*plan).map_values(|b: BlockView| block_child(b)),
        docx_page(r) == dictionary_page(),
{
    let mut doc = docx_new();
    doc = docx_page_size(doc, DOC_PAGE_WIDTH_LANDSCAPE, DOC_PAGE_HEIGHT_LANDSCAPE);
    doc = docx_page_orient(doc, PageOrientation::Landscape);
    doc = docx_page_margin(doc, 720, 720, 720, 720, 360, 360, 0);
    assert(plan_view(*plan).take(0).map_values(|b: BlockView| block_child(b)) =~= Seq::<
        DocChild,
    >::empty());
    let mut i: usize = 0;
    while i < plan.blocks.len()
        invariant
            i <= plan.blocks@.len(),
            docx_children(doc) == plan_view(*plan).take(i as int).map_values(
                |b: BlockView| block_child(b),
            ),
            docx_page(doc) == dictionary_page(),
        decreases plan.blocks@.len() - i,
    {
        let ghost before = docx_children(doc);
        proof {
            assert(plan_view(*plan).take(i + 1) =~= plan_view(*plan).take(i as int).push(
                block_view(plan.blocks@[i as int]),
            ));
            assert(plan_view(*plan).take(i + 1).map_values(|b: BlockView| block_child(b))
                =~= plan_view(*plan).take(i as int).map_values(|b: BlockView| block_child(b)).push(
                block_child(block_view(plan.blocks@[i as int])),
            ));
        }
        doc = match &plan.blocks[i] {
            DocxBlock::Title(t) => docx_add_paragraph(doc, title_heading(t.as_str())),
            DocxBlock::Section(t) => docx_add_paragraph(doc, section_heading(t.as_str())),
            DocxBlock::Subsection(t) => docx_add_paragraph(doc, subsection_heading(t.as_str())),
            DocxBlock::Text(t) => docx_add_paragraph(doc, paragraph(t.as_str())),
            DocxBlock::Spacer(after) => docx_add_paragraph(doc, spacer_paragraph(*after)),
            DocxBlock::Grid(g) => {
                let t = styled_docx_table(g);
                assert(table_rows(t) =~= g.rows@.map_values(|x: DocxRow| row_view(x)).map_values(
                    |row: (bool, Seq<Seq<char>>)| row_content(row, g.widths@),
                ));
                docx_add_table(doc, t)
            },
        };
        i = i + 1;
    }
    assert(plan_view(*plan).take(plan.blocks@.len() as int) =~= plan_view(*plan));
    doc
}

/// The Word database dictionary of a schema.
pub fn render_docx(database: &DatabaseSchema, labels: Labels) -> (r: Docx)
    ensures
        docx_children(r) == docx_plan_spec(*database, labels).map_values(|b: BlockView| block_child(b)),
        docx_page(r) == dictionary_page(),
{
    build_docx(&docx_plan(database, &labels))
}

} // verus!
