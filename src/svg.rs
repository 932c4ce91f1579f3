use vstd::prelude::*;

use crate::errors::AppError;
use crate::export::{scale_of, Encoded, Resolution};
use crate::text::{decimal, decimal_string, owned, push_char};

verus! {

/// How a run of text is drawn.
#[derive(Debug, Clone)]
pub struct SegmentStyle {
    pub color: String,
    pub bold: bool,
    pub italic: bool,
}

/// A run of text in one style.
#[derive(Debug, Clone)]
pub struct HighlightedSegment {
    pub text: String,
    pub style: SegmentStyle,
}

#[derive(Debug, Clone)]
pub struct HighlightedLine {
    pub segments: Vec<HighlightedSegment>,
    pub line_number: usize,
}

/// The highlighter's output: the code's lines split into styled runs.
#[derive(Debug, Clone)]
pub struct HighlightResult {
    pub highlighted_lines: Vec<HighlightedLine>,
    pub language: String,
    pub total_lines: usize,
}

/// What the vector document takes from a theme. Sizes are whole pixels at 1x.
#[derive(Debug, Clone)]
pub struct SvgStyle {
    /// Background fill.
    pub background: String,
    /// The color a gradient background runs to, top to bottom, if it is one.
    pub gradient_to: Option<String>,
    pub show_title_bar: bool,
    pub show_controls: bool,
    pub title: Option<String>,
    pub show_line_numbers: bool,
    pub font_size: u32,
    /// Line height as a percentage of the font size.
    pub line_height_percent: u32,
}

pub struct SegView {
    pub text: Seq<char>,
    pub color: Seq<char>,
}

pub struct LineView {
    pub segments: Seq<SegView>,
    pub line_number: usize,
}

pub struct StyleView {
    pub background: Seq<char>,
    pub gradient_to: Option<Seq<char>>,
    pub show_title_bar: bool,
    pub show_controls: bool,
    pub title: Option<Seq<char>>,
    pub show_line_numbers: bool,
    pub font_size: u32,
    pub line_height_percent: u32,
}

impl View for HighlightedSegment {
    type V = SegView;

    open spec fn view(&self) -> SegView {
        SegView { text: self.text@, color: self.style.color@ }
    }
}

impl View for HighlightedLine {
    type V = LineView;

    open spec fn view(&self) -> LineView {
        LineView { segments: self.segments@.map_values(|s: HighlightedSegment| s@), line_number: self.line_number }
    }
}

pub open spec fn opt_text(s: Option<String>) -> Option<Seq<char>> {
    match s {
        Some(t) => Some(t@),
        None => None,
    }
}

impl View for SvgStyle {
    type V = StyleView;

    open spec fn view(&self) -> StyleView {
        StyleView {
            background: self.background@,
            gradient_to: opt_text(self.gradient_to),
            show_title_bar: self.show_title_bar,
            show_controls: self.show_controls,
            title: opt_text(self.title),
            show_line_numbers: self.show_line_numbers,
            font_size: self.font_size,
            line_height_percent: self.line_height_percent,
        }
    }
}

pub open spec fn line_views(h: HighlightResult) -> Seq<LineView> {
    h.highlighted_lines@.map_values(|l: HighlightedLine| l@)
}

/// The sizes a document is laid out with, in pixels.
#[derive(Debug, Clone, Copy, PartialEq, Eq, Structural)]
pub struct SvgGeometry {
    pub width: u64,
    pub height: u64,
    pub padding: u64,
    pub font_size: u64,
    pub line_height: u64,
    pub char_width: u64,
}

/// The layout for a style at a scale: the font scaled, lines `line_height_percent` of
/// it apart, characters 6/10 of it wide, 40 pixels of padding per scale step, and
/// room for the longest line and every line.
pub open spec fn layout(st: StyleView, scale: nat, max_chars: nat, total_lines: nat) -> (nat, nat, nat, nat, nat, nat) {
    let font: nat = st.font_size as nat * scale;
    let line_height: nat = font * (st.line_height_percent as nat) / 100;
    let char_width: nat = font * 6 / 10;
    let padding: nat = 40 * scale;
    (
        (max_chars * char_width + 2 * padding) as nat,
        (total_lines * line_height + 2 * padding) as nat,
        padding,
        font,
        line_height,
        char_width,
    )
}

pub open spec fn geometry_matches(g: SvgGeometry, l: (nat, nat, nat, nat, nat, nat)) -> bool {
    g.width == l.0 && g.height == l.1 && g.padding == l.2 && g.font_size == l.3 && g.line_height
        == l.4 && g.char_width == l.5
}

pub open spec fn text_len(segs: Seq<SegView>) -> nat
    decreases segs.len(),
{
    if segs.len() == 0 {
        0
    } else {
        text_len(segs.drop_last()) + segs.last().text.len()
    }
}

/// The most characters on one line.
pub open spec fn longest_line(lines: Seq<LineView>) -> nat
    decreases lines.len(),
{
    if lines.len() == 0 {
        0
    } else {
        let rest = longest_line(lines.drop_last());
        let last = text_len(lines.last().segments);
        if last > rest {
            last
        } else {
            rest
        }
    }
}

/// A character as it appears in XML text.
pub open spec fn escape_char(c: char) -> Seq<char> {
    if c == '&' {
        "&amp;"@
    } else if c == '<' {
        "&lt;"@
    } else if c == '>' {
        "&gt;"@
    } else if c == '"' {
        "&quot;"@
    } else if c == '\'' {
        "&#39;"@
    } else {
        seq![c]
    }
}

/// Text as it appears in XML, markup characters replaced by references.
pub open spec fn escaped(s: Seq<char>) -> Seq<char>
    decreases s.len(),
{
    if s.len() == 0 {
        Seq::empty()
    } else {
        escaped(s.drop_last()) + escape_char(s.last())
    }
}

/// A number right-aligned in three columns.
pub open spec fn pad3(d: Seq<char>) -> Seq<char> {
    if d.len() >= 3 {
        d
    } else if d.len() == 2 {
        seq![' '] + d
    } else {
        seq![' ', ' '] + d
    }
}

pub open spec fn text_element(x: nat, y: nat, fill: Seq<char>, body: Seq<char>) -> Seq<char> {
    "<text x=\""@ + decimal(x) + "\" y=\""@ + decimal(y) + "\" class=\"code-text\" fill=\""@ + fill
        + "\">"@ + body + "</text>"@
}

pub open spec fn seg_markup(s: SegView, x: nat, y: nat) -> Seq<char> {
    if s.text.len() == 0 {
        Seq::empty()
    } else {
        text_element(x, y, s.color, escaped(s.text))
    }
}

/// The runs of a line from `x0` on, each starting where the text before it ends.
pub open spec fn segments_markup(segs: Seq<SegView>, x0: nat, y: nat, char_width: nat) -> Seq<char>
    decreases segs.len(),
{
    if segs.len() == 0 {
        Seq::empty()
    } else {
        segments_markup(segs.drop_last(), x0, y, char_width) + seg_markup(
            segs.last(),
            x0 + char_width * text_len(segs.drop_last()),
            y,
        )
    }
}

pub open spec fn line_markup(l: LineView, st: StyleView, g: SvgGeometry, y: nat) -> Seq<char> {
    if st.show_line_numbers {
        text_element(g.padding as nat, y, "#666666"@, pad3(decimal(l.line_number as nat)))
            + segments_markup(l.segments, (g.padding + 50) as nat, y, g.char_width as nat)
    } else {
        segments_markup(l.segments, g.padding as nat, y, g.char_width as nat)
    }
}

/// The lines, the first on the baseline `y0` and each next one a line height lower.
pub open spec fn lines_markup(lines: Seq<LineView>, st: StyleView, g: SvgGeometry, y0: nat) -> Seq<char>
    decreases lines.len(),
{
    if lines.len() == 0 {
        Seq::empty()
    } else {
        lines_markup(lines.drop_last(), st, g, y0) + line_markup(
            lines.last(),
            st,
            g,
            (y0 + g.line_height * (lines.len() - 1)) as nat,
        )
    }
}

pub open spec fn svg_header(g: SvgGeometry, st: StyleView) -> Seq<char> {
    "<?xml version=\"1.0\" encoding=\"UTF-8\"?>\n<svg width=\""@ + decimal(g.width as nat)
        + "\" height=\""@ + decimal(g.height as nat)
        + "\" xmlns=\"http://www.w3.org/2000/svg\">\n<defs>\n<style type=\"text/css\">\n<![CDATA[\n.code-text {\n    font-family: 'SF Mono', 'Monaco', 'Inconsolata', 'Fira Code', monospace;\n    font-size: "@
        + decimal(g.font_size as nat) + "px;\n    line-height: "@ + decimal(
        st.line_height_percent as nat,
    ) + "%;\n}\n]]>\n</style>\n</defs>\n"@
}

pub open spec fn svg_background(st: StyleView) -> Seq<char> {
    let base = "<rect width=\"100%\" height=\"100%\" fill=\""@ + st.background + "\"/>"@;
    match st.gradient_to {
        Some(to) => base
            + "<defs>\n<linearGradient id=\"bg-gradient\" x1=\"0%\" y1=\"0%\" x2=\"0%\" y2=\"100%\">\n<stop offset=\"0%\" style=\"stop-color:"@
            + st.background
            + ";stop-opacity:1\" />\n<stop offset=\"100%\" style=\"stop-color:"@ + to
            + ";stop-opacity:1\" />\n</linearGradient>\n</defs>\n<rect width=\"100%\" height=\"100%\" fill=\"url(#bg-gradient)\"/>"@,
        None => base,
    }
}

pub open spec fn svg_chrome(st: StyleView, g: SvgGeometry) -> Seq<char> {
    if !st.show_title_bar {
        Seq::empty()
    } else {
        let bar = "<rect x=\"0\" y=\"0\" width=\""@ + decimal(g.width as nat)
            + "\" height=\"30\" fill=\"#f0f0f0\" stroke=\"#cccccc\" stroke-width=\"1\"/>"@;
        let controls = if st.show_controls {
            "<circle cx=\"15\" cy=\"15\" r=\"6\" fill=\"#ff5f57\"/><circle cx=\"35\" cy=\"15\" r=\"6\" fill=\"#ffbd2e\"/><circle cx=\"55\" cy=\"15\" r=\"6\" fill=\"#28ca42\"/>"@
        } else {
            Seq::empty()
        };
        let title = match st.title {
            Some(t) => "<text x=\""@ + decimal((g.width / 2) as nat)
                + "\" y=\"20\" class=\"code-text\" fill=\"#333333\" text-anchor=\"middle\">"@
                + escaped(t) + "</text>"@,
            None => Seq::empty(),
        };
        bar + controls + title
    }
}

/// The baseline of the first line.
pub open spec fn first_baseline(st: StyleView, g: SvgGeometry) -> nat {
    (g.padding + g.font_size + if st.show_title_bar { 30int } else { 0int }) as nat
}

/// The whole vector document.
pub open spec fn svg_document(lines: Seq<LineView>, st: StyleView, g: SvgGeometry) -> Seq<char> {
    svg_header(g, st) + svg_background(st) + svg_chrome(st, g) + lines_markup(
        lines,
        st,
        g,
        first_baseline(st, g),
    ) + "</svg>"@
}

/// Appends `text` with XML markup characters replaced by references.
pub fn append_escaped(out: &mut String, text: &str)
    ensures
        final(out)@ == old(out)@ + escaped(text@),
{
    let n = text.unicode_len();
    let mut i: usize = 0;
    while i < n
        invariant
            n == text@.len(),
            i <= n,
            out@ == old(out)@ + escaped(text@.take(i as int)),
        decreases n - i,
    {
        let c = text.get_char(i);
        proof {
            assert(text@.take(i + 1).drop_last() =~= text@.take(i as int));
            assert(text@.take(i + 1).last() == c);
        }
        let ghost before = out@;
        if c == '&' {
            out.append("&amp;");
        } else if c == '<' {
            out.append("&lt;");
        } else if c == '>' {
            out.append("&gt;");
        } else if c == '"' {
            out.append("&quot;");
        } else if c == '\'' {
            out.append("&#39;");
        } else {
            push_char(out, c);
        }
        proof {
            assert(out@ =~= before + escape_char(c));
            assert(out@ =~= old(out)@ + escaped(text@.take(i + 1)));
        }
        i = i + 1;
    }
    proof {
        assert(text@.take(n as int) =~= text@);
    }
}

fn append_decimal(out: &mut String, n: u64)
    ensures
        final(out)@ == old(out)@ + decimal(n as nat),
{
    let d = decimal_string(n);
    out.append(d.as_str());
}

fn append_text_element(out: &mut String, x: u64, y: u64, fill: &str, body: &str)
    ensures
        final(out)@ =~= old(out)@ + text_element(x as nat, y as nat, fill@, body@),
{
    out.append("<text x=\"");
    append_decimal(out, x);
    out.append("\" y=\"");
    append_decimal(out, y);
    out.append("\" class=\"code-text\" fill=\"");
    out.append(fill);
    out.append("\">");
    out.append(body);
    out.append("</text>");
}

fn append_segment(out: &mut String, seg: &HighlightedSegment, x: u64, y: u64)
    ensures
        final(out)@ =~= old(out)@ + seg_markup(seg@, x as nat, y as nat),
{
    let n = seg.text.as_str().unicode_len();
    if n > 0 {
        let mut body = String::new();
        append_escaped(&mut body, seg.text.as_str());
        append_text_element(out, x, y, seg.style.color.as_str(), body.as_str());
    }
}

/// The text before a prefix of the runs is no longer than all of it.
pub proof fn lemma_text_len_prefix(s: Seq<SegView>, k: int)
    requires
        0 <= k <= s.len(),
    ensures
        text_len(s.take(k)) <= text_len(s),
    decreases s.len(),
{
    if k < s.len() {
        assert(s.take(k) =~= s.drop_last().take(k));
        lemma_text_len_prefix(s.drop_last(), k);
    } else {
        assert(s.take(k) =~= s);
    }
}

/// The bound under which every coordinate of a document fits in 64 bits.
pub const COORDINATE_LIMIT: u64 = 1_048_576;

pub open spec fn within_limits(lines: Seq<LineView>, g: SvgGeometry) -> bool {
    &&& g.padding <= COORDINATE_LIMIT
    &&& g.font_size <= COORDINATE_LIMIT
    &&& g.line_height <= COORDINATE_LIMIT
    &&& g.char_width <= COORDINATE_LIMIT
    &&& g.width <= u64::MAX
    &&& lines.len() <= COORDINATE_LIMIT
    &&& forall|i: int| 0 <= i < lines.len() ==> text_len(#[trigger] lines[i].segments) <= COORDINATE_LIMIT
}

fn append_line(out: &mut String, line: &HighlightedLine, style: &SvgStyle, g: &SvgGeometry, y: u64)
    requires
        g.padding <= COORDINATE_LIMIT,
        g.char_width <= COORDINATE_LIMIT,
        text_len(line@.segments) <= COORDINATE_LIMIT,
    ensures
        final(out)@ =~= old(out)@ + line_markup(line@, style@, *g, y as nat),
{
    let x0: u64 = if style.show_line_numbers {
        let d = decimal_string(line.line_number as u64);
        let len = d.as_str().unicode_len();
        let mut body = String::new();
        if len < 2 {
            body.append("  ");
        } else if len < 3 {
            body.append(" ");
        }
        body.append(d.as_str());
        proof {
            reveal_strlit("  ");
            reveal_strlit(" ");
            assert(body@ =~= pad3(decimal(line.line_number as nat)));
        }
        append_text_element(out, g.padding, y, "#666666", body.as_str());
        g.padding + 50
    } else {
        g.padding
    };
    let ghost start = out@;
    let ghost segs = line@.segments;
    let mut x: u64 = x0;
    let mut k: usize = 0;
    proof {
        assert(segs.take(0) =~= Seq::<SegView>::empty());
        assert(text_len(segs.take(0)) == 0);
        assert(g.char_width * 0 == 0) by (nonlinear_arith);
    }
    while k < line.segments.len()
        invariant
            segs == line@.segments,
            segs.len() == line.segments@.len(),
            k <= segs.len(),
            g.char_width <= COORDINATE_LIMIT,
            x0 <= COORDINATE_LIMIT + 50,
            text_len(segs) <= COORDINATE_LIMIT,
            x == x0 + g.char_width * text_len(segs.take(k as int)),
            out@ =~= start + segments_markup(segs.take(k as int), x0 as nat, y as nat, g.char_width as nat),
        decreases segs.len() - k,
    {
        let seg = &line.segments[k];
        proof {
            assert(segs[k as int] == seg@);
            assert(segs.take(k + 1).drop_last() =~= segs.take(k as int));
            assert(segs.take(k + 1).last() == seg@);
            lemma_text_len_prefix(segs, k + 1);
            assert(g.char_width * text_len(segs.take(k + 1)) <= COORDINATE_LIMIT * COORDINATE_LIMIT) by (nonlinear_arith)
                requires
                    g.char_width <= COORDINATE_LIMIT,
                    text_len(segs.take(k + 1)) <= COORDINATE_LIMIT,
            ;
        }
        append_segment(out, seg, x, y);
        let n = seg.text.as_str().unicode_len();
        proof {
            assert(g.char_width * text_len(segs.take(k + 1)) == g.char_width * text_len(segs.take(k as int)) + g.char_width * n) by (nonlinear_arith)
                requires
                    text_len(segs.take(k + 1)) == text_len(segs.take(k as int)) + n,
            ;
        }
        x = x + g.char_width * (n as u64);
        k = k + 1;
    }
    proof {
        assert(segs.take(k as int) =~= segs);
    }
}

fn append_header(out: &mut String, g: &SvgGeometry, style: &SvgStyle)
    ensures
        final(out)@ =~= old(out)@ + svg_header(*g, style@),
{
    out.append("<?xml version=\"1.0\" encoding=\"UTF-8\"?>\n<svg width=\"");
    append_decimal(out, g.width);
    out.append("\" height=\"");
    append_decimal(out, g.height);
    out.append(
        "\" xmlns=\"http://www.w3.org/2000/svg\">\n<defs>\n<style type=\"text/css\">\n<![CDATA[\n.code-text {\n    font-family: 'SF Mono', 'Monaco', 'Inconsolata', 'Fira Code', monospace;\n    font-size: ",
    );
    append_decimal(out, g.font_size);
    out.append("px;\n    line-height: ");
    append_decimal(out, style.line_height_percent as u64);
    out.append("%;\n}\n]]>\n</style>\n</defs>\n");
}

fn append_background(out: &mut String, style: &SvgStyle)
    ensures
        final(out)@ =~= old(out)@ + svg_background(style@),
{
    out.append("<rect width=\"100%\" height=\"100%\" fill=\"");
    out.append(style.background.as_str());
    out.append("\"/>");
    if let Some(to) = &style.gradient_to {
        out.append(
            "<defs>\n<linearGradient id=\"bg-gradient\" x1=\"0%\" y1=\"0%\" x2=\"0%\" y2=\"100%\">\n<stop offset=\"0%\" style=\"stop-color:",
        );
        out.append(style.background.as_str());
        out.append(";stop-opacity:1\" />\n<stop offset=\"100%\" style=\"stop-color:");
        out.append(to.as_str());
        out.append(
            ";stop-opacity:1\" />\n</linearGradient>\n</defs>\n<rect width=\"100%\" height=\"100%\" fill=\"url(#bg-gradient)\"/>",
        );
    }
}

fn append_chrome(out: &mut String, style: &SvgStyle, g: &SvgGeometry)
    ensures
        final(out)@ =~= old(out)@ + svg_chrome(style@, *g),
{
    if style.show_title_bar {
        out.append("<rect x=\"0\" y=\"0\" width=\"");
        append_decimal(out, g.width);
        out.append("\" height=\"30\" fill=\"#f0f0f0\" stroke=\"#cccccc\" stroke-width=\"1\"/>");
        if style.show_controls {
            out.append(
                "<circle cx=\"15\" cy=\"15\" r=\"6\" fill=\"#ff5f57\"/><circle cx=\"35\" cy=\"15\" r=\"6\" fill=\"#ffbd2e\"/><circle cx=\"55\" cy=\"15\" r=\"6\" fill=\"#28ca42\"/>",
            );
        }
        if let Some(title) = &style.title {
            out.append("<text x=\"");
            append_decimal(out, g.width / 2);
            out.append("\" y=\"20\" class=\"code-text\" fill=\"#333333\" text-anchor=\"middle\">");
            append_escaped(out, title.as_str());
            out.append("</text>");
        }
    }
}

/// Writes the vector document for highlighted lines in a style and layout.
pub fn generate_svg_content(h: &HighlightResult, style: &SvgStyle, g: &SvgGeometry) -> (r: String)
    requires
        within_limits(line_views(*h), *g),
    ensures
        r@ =~= svg_document(line_views(*h), style@, *g),
{
    let ghost lines = line_views(*h);
    let mut svg = String::new();
    append_header(&mut svg, g, style);
    append_background(&mut svg, style);
    append_chrome(&mut svg, style, g);
    let y0: u64 = if style.show_title_bar {
        g.padding + g.font_size + 30
    } else {
        g.padding + g.font_size
    };
    let ghost start = svg@;
    let n = h.highlighted_lines.len();
    let mut i: usize = 0;
    while i < n
        invariant
            lines == line_views(*h),
            n == lines.len(),
            i <= n,
            within_limits(lines, *g),
            y0 == first_baseline(style@, *g),
            svg@ =~= start + lines_markup(lines.take(i as int), style@, *g, y0 as nat),
        decreases n - i,
    {
        let line = &h.highlighted_lines[i];
        proof {
            assert(lines[i as int] == line@);
            assert(lines.take(i + 1).drop_last() =~= lines.take(i as int));
            assert(lines.take(i + 1).last() == line@);
            assert(g.line_height * i <= COORDINATE_LIMIT * COORDINATE_LIMIT) by (nonlinear_arith)
                requires
                    g.line_height <= COORDINATE_LIMIT,
                    i <= COORDINATE_LIMIT,
            ;
        }
        let y = y0 + g.line_height * (i as u64);
        append_line(&mut svg, line, style, g, y);
        i = i + 1;
    }
    proof {
        assert(lines.take(n as int) =~= lines);
    }
    svg.append("</svg>");
    svg
}

/// The UTF-8 encoding of a non-empty text is non-empty.
pub proof fn lemma_encoding_nonempty(chars: Seq<char>)
    requires
        chars.len() > 0,
    ensures
        vstd::utf8::encode_utf8(chars).len() > 0,
{
    assert(vstd::utf8::encode_scalar(chars[0] as u32).len() > 0);
}

/// The lines fit the limits at this layout, and the image's size fits 32 bits.
pub open spec fn layout_fits(lines: Seq<LineView>, st: StyleView, scale: nat, total_lines: nat) -> bool {
    let l = layout(st, scale, longest_line(lines), total_lines);
    &&& l.3 <= COORDINATE_LIMIT
    &&& l.4 <= COORDINATE_LIMIT
    &&& lines.len() <= COORDINATE_LIMIT
    &&& total_lines <= COORDINATE_LIMIT
    &&& forall|i: int| 0 <= i < lines.len() ==> text_len(#[trigger] lines[i].segments) <= COORDINATE_LIMIT
    &&& l.0 <= u32::MAX
    &&& l.1 <= u32::MAX
}

pub open spec fn too_large(e: AppError) -> bool {
    e matches AppError::ValidationError { message } && message@ == "Snippet too large to lay out"@
}

/// The number of characters on a line, if it is within the limit.
fn line_chars(line: &HighlightedLine) -> (r: Option<u64>)
    ensures
        r is Some <==> text_len(line@.segments) <= COORDINATE_LIMIT,
        r is Some ==> r->Some_0 == text_len(line@.segments),
{
    let ghost segs = line@.segments;
    let mut total: u64 = 0;
    let mut k: usize = 0;
    proof {
        assert(segs.take(0) =~= Seq::<SegView>::empty());
    }
    while k < line.segments.len()
        invariant
            segs == line@.segments,
            segs.len() == line.segments@.len(),
            k <= segs.len(),
            total == text_len(segs.take(k as int)),
            total <= COORDINATE_LIMIT,
        decreases segs.len() - k,
    {
        let n = line.segments[k].text.as_str().unicode_len();
        proof {
            assert(segs[k as int] == line.segments@[k as int]@);
            assert(segs.take(k + 1).drop_last() =~= segs.take(k as int));
        }
        if n as u64 > COORDINATE_LIMIT - total {
            proof {
                lemma_text_len_prefix(segs, k + 1);
            }
            return None;
        }
        total = total + n as u64;
        k = k + 1;
    }
    proof {
        assert(segs.take(k as int) =~= segs);
    }
    Some(total)
}

/// Lays out and writes the vector document of highlighted lines at a resolution.
/// Fails when the layout exceeds the coordinate limit or the image's size 32 bits.
pub fn export_svg(h: &HighlightResult, style: &SvgStyle, resolution: Resolution) -> (r: Result<
    Encoded,
    AppError,
>)
    ensures
        r is Ok <==> layout_fits(line_views(*h), style@, scale_of(resolution) as nat, h.total_lines as nat),
        r is Err ==> too_large(r->Err_0),
        r is Ok ==> r->Ok_0.data@.len() > 0 && r->Ok_0.width > 0 && r->Ok_0.height > 0,
        r is Ok ==> ({
            let l = layout(style@, scale_of(resolution) as nat, longest_line(line_views(*h)), h.total_lines as nat);
            let g = SvgGeometry {
                width: l.0 as u64,
                height: l.1 as u64,
                padding: l.2 as u64,
                font_size: l.3 as u64,
                line_height: l.4 as u64,
                char_width: l.5 as u64,
            };
            &&& r->Ok_0.width == l.0
            &&& r->Ok_0.height == l.1
            &&& r->Ok_0.data@ == vstd::utf8::encode_utf8(svg_document(line_views(*h), style@, g))
        }),
{
    let ghost lines = line_views(*h);
    let scale = resolution.scale() as u64;
    let font = style.font_size as u64 * scale;
    if font > COORDINATE_LIMIT {
        return Err(AppError::validation_failed("Snippet too large to lay out"));
    }
    proof {
        assert(font * (style.line_height_percent as u64) <= COORDINATE_LIMIT * 0x1_0000_0000) by (nonlinear_arith)
            requires
                font <= COORDINATE_LIMIT,
                style.line_height_percent <= 0xFFFF_FFFF,
        ;
    }
    let line_height = font * (style.line_height_percent as u64) / 100;
    if line_height > COORDINATE_LIMIT {
        return Err(AppError::validation_failed("Snippet too large to lay out"));
    }
    let char_width = font * 6 / 10;
    let padding = 40 * scale;
    let n = h.highlighted_lines.len();
    if n as u64 > COORDINATE_LIMIT || h.total_lines as u64 > COORDINATE_LIMIT {
        return Err(AppError::validation_failed("Snippet too large to lay out"));
    }
    let mut longest: u64 = 0;
    let mut i: usize = 0;
    proof {
        assert(lines.take(0) =~= Seq::<LineView>::empty());
    }
    while i < n
        invariant
            lines == line_views(*h),
            n == lines.len(),
            i <= n,
            longest == longest_line(lines.take(i as int)),
            longest <= COORDINATE_LIMIT,
            forall|j: int| 0 <= j < i ==> text_len(#[trigger] lines[j].segments) <= COORDINATE_LIMIT,
        decreases n - i,
    {
        proof {
            assert(lines[i as int] == h.highlighted_lines@[i as int]@);
            assert(lines.take(i + 1).drop_last() =~= lines.take(i as int));
        }
        match line_chars(&h.highlighted_lines[i]) {
            None => {
                return Err(AppError::validation_failed("Snippet too large to lay out"));
            },
            Some(c) => {
                if c > longest {
                    longest = c;
                }
            },
        }
        i = i + 1;
    }
    proof {
        assert(lines.take(n as int) =~= lines);
        assert(longest * char_width <= COORDINATE_LIMIT * COORDINATE_LIMIT) by (nonlinear_arith)
            requires
                longest <= COORDINATE_LIMIT,
                char_width <= COORDINATE_LIMIT,
        ;
        assert((h.total_lines as u64) * line_height <= COORDINATE_LIMIT * COORDINATE_LIMIT) by (nonlinear_arith)
            requires
                h.total_lines as u64 <= COORDINATE_LIMIT,
                line_height <= COORDINATE_LIMIT,
        ;
    }
    let width = longest * char_width + 2 * padding;
    let height = (h.total_lines as u64) * line_height + 2 * padding;
    if width > 0xFFFF_FFFF || height > 0xFFFF_FFFF {
        return Err(AppError::validation_failed("Snippet too large to lay out"));
    }
    let g = SvgGeometry { width, height, padding, font_size: font, line_height, char_width };
    let svg = generate_svg_content(h, style, &g);
    proof {
        reveal_strlit("</svg>");
        assert(svg@.len() > 0);
        lemma_encoding_nonempty(svg@);
    }
    let data = vstd::slice::slice_to_vec(svg.as_str().as_bytes());
    Ok(Encoded { data, width: width as u32, height: height as u32 })
}

} // verus!
