//! Mermaid bar charts: reading an `xychart-beta` block, taking it out of a text,
//! and drawing it as a UI surface.
use vstd::prelude::*;

use crate::json::{
    array, at, inner, items_view, no_fields, object, put_field, put_item, put_text, says,
    text_array, texts_json, Json, JsonV,
};
use crate::number::{decimal, decimal_text, law_numbers_are_read, parse_number, parse_u64};
use crate::split::{join, join_text, lines, lines_of, split, split_text};
use crate::text::{
    chars_of, contains, contains_text, find_chars, first_at, lemma_first_at, put, starts_with,
    starts_with_text, text, text_between, trim, trim_start, trim_start_text, trim_text,
};

verus! {

/// A bar chart.
#[derive(Debug)]
pub struct MermaidXyChartSpec {
    pub title: Option<String>,
    pub labels: Vec<String>,
    pub values: Vec<u64>,
    pub y_max: u64,
}

/// The model of a [`MermaidXyChartSpec`].
#[verifier::ext_equal]
pub struct ChartV {
    pub title: Option<Seq<char>>,
    pub labels: Seq<Seq<char>>,
    pub values: Seq<u64>,
    pub y_max: u64,
}

impl DeepView for MermaidXyChartSpec {
    type V = ChartV;

    open spec fn deep_view(&self) -> ChartV {
        ChartV {
            title: self.title.deep_view(),
            labels: self.labels.deep_view(),
            values: self.values@,
            y_max: self.y_max,
        }
    }
}

/// The text without any leading `c`.
pub open spec fn strip_front(s: Seq<char>, c: char) -> Seq<char>
    decreases s.len(),
{
    if s.len() > 0 && s[0] == c {
        strip_front(s.drop_first(), c)
    } else {
        s
    }
}

/// The text without any trailing `c`.
pub open spec fn strip_back(s: Seq<char>, c: char) -> Seq<char>
    decreases s.len(),
{
    if s.len() > 0 && s.last() == c {
        strip_back(s.drop_last(), c)
    } else {
        s
    }
}

/// The text without any `c` at either end.
pub open spec fn strip_both(s: Seq<char>, c: char) -> Seq<char> {
    strip_back(strip_front(s, c), c)
}

/// The text without any `c` at either end.
fn strip_char(s: &str, c: char) -> (r: String)
    ensures
        r@ == strip_both(s@, c),
{
    let v = chars_of(s);
    let mut from: usize = 0;
    proof {
        assert(v@.skip(0) =~= v@);
    }
    while from < v.len() && v[from] == c
        invariant
            from <= v@.len(),
            strip_front(v@, c) == strip_front(v@.skip(from as int), c),
        decreases v@.len() - from,
    {
        proof {
            assert(v@.skip(from as int).drop_first() =~= v@.skip(from + 1));
        }
        from = from + 1;
    }
    let mut to: usize = v.len();
    proof {
        assert(v@.skip(from as int) =~= v@.subrange(from as int, to as int));
    }
    while to > from && v[to - 1] == c
        invariant
            from <= to <= v@.len(),
            strip_back(v@.skip(from as int), c) == strip_back(
                v@.subrange(from as int, to as int),
                c,
            ),
        decreases to,
    {
        proof {
            assert(v@.subrange(from as int, to as int).drop_last() =~= v@.subrange(
                from as int,
                to - 1,
            ));
        }
        to = to - 1;
    }
    text_between(&v, from, to)
}

/// The parts of a list that are not blank, trimmed and without their quotes.
pub open spec fn list_items(parts: Seq<Seq<char>>) -> Seq<Seq<char>>
    decreases parts.len(),
{
    if parts.len() == 0 {
        seq![]
    } else {
        let rest = list_items(parts.drop_last());
        let p = trim(parts.last());
        if p.len() == 0 {
            rest
        } else {
            rest.push(strip_both(strip_both(p, '"'), '\''))
        }
    }
}

/// The text between the first `open` and the next `close` after it.
pub open spec fn between(s: Seq<char>, open: char, close: char) -> Option<Seq<char>> {
    match first_at(s, seq![open], 0) {
        Some(i) => match first_at(s, seq![close], i + 1) {
            Some(j) => Some(s.subrange(i + 1, j)),
            None => None,
        },
        None => None,
    }
}

/// The text between the first `open` and the next `close` after it.
fn text_enclosed(s: &str, open: char, close: char) -> (r: Option<String>)
    ensures
        r.deep_view() == between(s@, open, close),
{
    let v = chars_of(s);
    let mut p: Vec<char> = Vec::new();
    p.push(open);
    let mut q: Vec<char> = Vec::new();
    q.push(close);
    proof {
        assert(p@ =~= seq![open]);
        assert(q@ =~= seq![close]);
    }
    match find_chars(&v, &p, 0) {
        Some(i) => match find_chars(&v, &q, i + 1) {
            Some(j) => Some(text_between(&v, i + 1, j)),
            None => None,
        },
        None => None,
    }
}

/// The items of the first bracketed list in a line.
pub open spec fn array_items(raw: Seq<char>) -> Seq<Seq<char>> {
    match between(raw, '[', ']') {
        Some(inner) => list_items(split(inner, ',')),
        None => seq![],
    }
}

/// The items that are decimal numbers.
pub open spec fn numbers_in(items: Seq<Seq<char>>) -> Seq<u64>
    decreases items.len(),
{
    if items.len() == 0 {
        seq![]
    } else {
        let rest = numbers_in(items.drop_last());
        match parse_number(items.last(), u64::MAX as nat) {
            Some(n) => rest.push(n as u64),
            None => rest,
        }
    }
}

/// The items of the first bracketed list in a line.
pub fn parse_mermaid_array_str(raw: &str) -> (r: Vec<String>)
    ensures
        r.deep_view() == array_items(raw@),
{
    let mut out: Vec<String> = Vec::new();
    proof {
        assert(out.deep_view() =~= Seq::<Seq<char>>::empty());
    }
    match text_enclosed(raw, '[', ']') {
        None => out,
        Some(inner) => {
            let parts = split_text(inner.as_str(), ',');
            let ghost all = parts.deep_view();
            let mut i: usize = 0;
            proof {
                assert(all.take(0) =~= Seq::<Seq<char>>::empty());
            }
            while i < parts.len()
                invariant
                    i <= parts@.len(),
                    all == parts.deep_view(),
                    out.deep_view() == list_items(all.take(i as int)),
                decreases parts@.len() - i,
            {
                let ghost before = out.deep_view();
                proof {
                    assert(all.take(i + 1).drop_last() =~= all.take(i as int));
                    assert(all.take(i + 1).last() == parts@[i as int]@);
                }
                let p = trim_text(parts[i].as_str());
                if !p.as_str().is_empty() {
                    let q = strip_char(p.as_str(), '"');
                    let item = strip_char(q.as_str(), '\'');
                    out.push(item);
                    proof {
                        assert(out.deep_view() =~= before.push(item@));
                    }
                }
                i = i + 1;
            }
            proof {
                assert(all.take(all.len() as int) =~= all);
            }
            out
        },
    }
}

/// The numbers in the first bracketed list of a line.
pub fn parse_mermaid_array_u64(raw: &str) -> (r: Vec<u64>)
    ensures
        r@ == numbers_in(array_items(raw@)),
{
    let items = parse_mermaid_array_str(raw);
    let ghost all = items.deep_view();
    let mut out: Vec<u64> = Vec::new();
    let mut i: usize = 0;
    proof {
        assert(all.take(0) =~= Seq::<Seq<char>>::empty());
    }
    while i < items.len()
        invariant
            i <= items@.len(),
            all == items.deep_view(),
            out@ == numbers_in(all.take(i as int)),
        decreases items@.len() - i,
    {
        proof {
            assert(all.take(i + 1).drop_last() =~= all.take(i as int));
            assert(all.take(i + 1).last() == items@[i as int]@);
        }
        match parse_u64(items[i].as_str()) {
            Some(n) => {
                out.push(n);
            },
            None => {},
        }
        i = i + 1;
    }
    proof {
        assert(all.take(all.len() as int) =~= all);
    }
    out
}

/// The text between the first two double quotes.
pub fn parse_mermaid_quoted_value(raw: &str) -> (r: Option<String>)
    ensures
        r.deep_view() == between(raw@, '"', '"'),
{
    text_enclosed(raw, '"', '"')
}

/// What has been read of a chart.
pub struct ReadV {
    pub title: Option<Seq<char>>,
    pub labels: Seq<Seq<char>>,
    pub values: Seq<u64>,
    pub y_max: Option<nat>,
}

impl ReadV {
    /// Reads one line.
    pub open spec fn line(self, raw: Seq<char>) -> ReadV {
        let t = trim(raw);
        if starts_with(t, "title "@) {
            ReadV { title: between(t, '"', '"'), ..self }
        } else if starts_with(t, "x-axis "@) {
            ReadV { labels: array_items(t), ..self }
        } else if starts_with(t, "bar "@) {
            ReadV { values: numbers_in(array_items(t)), ..self }
        } else if starts_with(t, "y-axis "@) {
            match first_at(t, "-->"@, 0) {
                Some(i) => ReadV {
                    y_max: parse_number(trim(t.skip(i + 3)), u64::MAX as nat),
                    ..self
                },
                None => self,
            }
        } else {
            self
        }
    }

    /// Reads lines one after the other.
    pub open spec fn all_lines(raw: Seq<Seq<char>>) -> ReadV
        decreases raw.len(),
    {
        if raw.len() == 0 {
            ReadV { title: None, labels: seq![], values: seq![], y_max: None }
        } else {
            ReadV::all_lines(raw.drop_last()).line(raw.last())
        }
    }

    /// The chart that was read: labels that do not match the values are replaced
    /// by numbered ones, and the axis reaches at least the largest value.
    pub open spec fn chart(self) -> Option<ChartV> {
        if self.values.len() == 0 {
            None
        } else {
            Some(
                ChartV {
                    title: self.title,
                    labels: if self.labels.len() == self.values.len() {
                        self.labels
                    } else {
                        Seq::new(self.values.len(), |i: int| "Item "@ + decimal((i + 1) as nat))
                    },
                    values: self.values,
                    y_max: axis_top(self.y_max, largest(self.values)),
                },
            )
        }
    }
}

/// The largest value, at least one.
pub open spec fn largest(values: Seq<u64>) -> u64
    decreases values.len(),
{
    if values.len() == 0 {
        1
    } else {
        let m = largest(values.drop_last());
        if values.last() > m {
            values.last()
        } else {
            m
        }
    }
}

/// The top of the axis: what was declared, but at least the largest value.
pub open spec fn axis_top(declared: Option<nat>, top: u64) -> u64 {
    match declared {
        Some(n) => if n > top {
            n as u64
        } else {
            top
        },
        None => top,
    }
}

/// The chart that a text describes, if it has one.
pub open spec fn chart_of(content: Seq<char>) -> Option<ChartV> {
    if contains(content, "xychart-beta"@) {
        ReadV::all_lines(lines(content)).chart()
    } else {
        None
    }
}

/// The upper bound that a line for the y axis declares.
fn axis_bound(t: &str, old_bound: Option<u64>) -> (r: Option<u64>)
    ensures
        match first_at(t@, "-->"@, 0) {
            Some(i) => match r {
                Some(n) => parse_number(trim(t@.skip(i + 3)), u64::MAX as nat) == Some(n as nat),
                None => parse_number(trim(t@.skip(i + 3)), u64::MAX as nat) is None,
            },
            None => r == old_bound,
        },
{
    let v = chars_of(t);
    let p = chars_of("-->");
    proof {
        reveal_strlit("-->");
        lemma_first_at(t@, "-->"@, 0);
    }
    match find_chars(&v, &p, 0) {
        Some(i) => {
            let rest = text_between(&v, i + 3, v.len());
            proof {
                assert(rest@ =~= t@.skip(i + 3));
            }
            let upper = trim_text(rest.as_str());
            parse_u64(upper.as_str())
        },
        None => old_bound,
    }
}

/// Reads the bar chart that a text describes, if it has one.
pub fn parse_mermaid_xychart_spec(content: &str) -> (r: Option<MermaidXyChartSpec>)
    ensures
        match r {
            Some(c) => chart_of(content@) == Some(c.deep_view()),
            None => chart_of(content@) is None,
        },
{
    if !contains_text(content, "xychart-beta") {
        return None;
    }
    let mut title: Option<String> = None;
    let mut labels: Vec<String> = Vec::new();
    let mut values: Vec<u64> = Vec::new();
    let mut y_max: Option<u64> = None;
    let raw = lines_of(content);
    let ghost all = raw.deep_view();
    let mut i: usize = 0;
    proof {
        assert(all.take(0) =~= Seq::<Seq<char>>::empty());
        assert(labels.deep_view() =~= Seq::<Seq<char>>::empty());
    }
    while i < raw.len()
        invariant
            i <= raw@.len(),
            all == raw.deep_view(),
            ({
                let read = ReadV::all_lines(all.take(i as int));
                &&& read.title == title.deep_view()
                &&& read.labels == labels.deep_view()
                &&& read.values == values@
                &&& read.y_max == (match y_max {
                    Some(n) => Some(n as nat),
                    None => None,
                })
            }),
        decreases raw@.len() - i,
    {
        proof {
            assert(all.take(i + 1).drop_last() =~= all.take(i as int));
            assert(all.take(i + 1).last() == raw@[i as int]@);
        }
        let trimmed = trim_text(raw[i].as_str());
        let t = trimmed.as_str();
        if starts_with_text(t, "title ") {
            title = parse_mermaid_quoted_value(t);
        } else if starts_with_text(t, "x-axis ") {
            labels = parse_mermaid_array_str(t);
        } else if starts_with_text(t, "bar ") {
            values = parse_mermaid_array_u64(t);
        } else if starts_with_text(t, "y-axis ") {
            y_max = axis_bound(t, y_max);
        }
        i = i + 1;
    }
    proof {
        assert(all.take(all.len() as int) =~= all);
    }
    if values.len() == 0 {
        return None;
    }
    if labels.len() != values.len() {
        labels = numbered_labels(values.len());
    }
    let top = largest_value(&values);
    let y_max: u64 = match y_max {
        Some(n) => if n > top {
            n
        } else {
            top
        },
        None => top,
    };
    Some(MermaidXyChartSpec { title, labels, values, y_max })
}

/// Labels that number the items from one on.
fn numbered_labels(n: usize) -> (r: Vec<String>)
    ensures
        r.deep_view() == Seq::new(n as nat, |i: int| "Item "@ + decimal((i + 1) as nat)),
{
    let mut out: Vec<String> = Vec::new();
    let mut i: usize = 0;
    while i < n
        invariant
            i <= n,
            out@.len() == i,
            forall|j: int|
                0 <= j < i ==> (#[trigger] out@[j])@ == "Item "@ + decimal((j + 1) as nat),
        decreases n - i,
    {
        let mut s = text("Item ");
        put(&mut s, decimal_text(i as u64 + 1).as_str());
        out.push(s);
        i = i + 1;
    }
    proof {
        assert(out.deep_view() =~= Seq::new(
            n as nat,
            |i: int| "Item "@ + decimal((i + 1) as nat),
        ));
    }
    out
}

/// The largest value, at least one.
fn largest_value(values: &Vec<u64>) -> (r: u64)
    ensures
        r == largest(values@),
{
    let mut m: u64 = 1;
    let mut i: usize = 0;
    while i < values.len()
        invariant
            i <= values@.len(),
            m == largest(values@.take(i as int)),
        decreases values@.len() - i,
    {
        proof {
            assert(values@.take(i + 1).drop_last() =~= values@.take(i as int));
        }
        if values[i] > m {
            m = values[i];
        }
        i = i + 1;
    }
    proof {
        assert(values@.take(values@.len() as int) =~= values@);
    }
    m
}

// ---------------------------------------------------------------------------
// Taking a chart out of a text
// ---------------------------------------------------------------------------
/// Whether a line opens a chart.
pub open spec fn opens_chart(line: Seq<char>) -> bool {
    starts_with(trim_start(line), "xychart-beta"@)
}

/// Whether a line belongs to the chart above it.
pub open spec fn continues_chart(line: Seq<char>) -> bool {
    let t = trim(line);
    ||| line.len() > 0 && (line[0] == ' ' || line[0] == '\t')
    ||| starts_with(t, "title "@)
    ||| starts_with(t, "x-axis "@)
    ||| starts_with(t, "y-axis "@)
    ||| starts_with(t, "bar "@)
    ||| starts_with(t, "line "@)
    ||| starts_with(t, "scatter "@)
}

/// The first line from `from` on that opens a chart.
pub open spec fn chart_start(all: Seq<Seq<char>>, from: int) -> Option<int>
    decreases all.len() - from,
{
    if from < 0 || from >= all.len() {
        None
    } else if opens_chart(all[from]) {
        Some(from)
    } else {
        chart_start(all, from + 1)
    }
}

/// The end of the chart whose lines reach up to `from`: it takes in one blank
/// line after it.
pub open spec fn chart_end(all: Seq<Seq<char>>, from: int) -> int
    decreases all.len() - from,
{
    if from < 0 || from >= all.len() {
        from
    } else if trim(all[from]).len() == 0 {
        from + 1
    } else if continues_chart(all[from]) {
        chart_end(all, from + 1)
    } else {
        from
    }
}

/// The text without its first chart.
pub open spec fn without_chart(content: Seq<char>) -> Seq<char> {
    let all = lines(content);
    match chart_start(all, 0) {
        Some(i) => trim(join(all.take(i) + all.skip(chart_end(all, i + 1)), "\n"@)),
        None => content,
    }
}

fn line_continues_chart(line: &str) -> (r: bool)
    ensures
        r == continues_chart(line@),
{
    let v = chars_of(line);
    if v.len() > 0 && (v[0] == ' ' || v[0] == '\t') {
        return true;
    }
    let trimmed = trim_text(line);
    let t = trimmed.as_str();
    starts_with_text(t, "title ") || starts_with_text(t, "x-axis ") || starts_with_text(
        t,
        "y-axis ",
    ) || starts_with_text(t, "bar ") || starts_with_text(t, "line ") || starts_with_text(
        t,
        "scatter ",
    )
}

/// Takes the first chart out of a text; a text without a chart stays as it is.
pub fn strip_mermaid_xychart_block(content: &str) -> (r: String)
    ensures
        r@ == without_chart(content@),
{
    let raw = lines_of(content);
    let ghost all = raw.deep_view();
    let mut start: usize = 0;
    let mut found = false;
    while start < raw.len() && !found
        invariant
            start <= raw@.len(),
            all == raw.deep_view(),
            all == lines(content@),
            chart_start(all, 0) == chart_start(all, start as int),
            found ==> start < raw@.len() && chart_start(all, 0) == Some(start as int),
        decreases raw@.len() - start + (if found { 0int } else { 1int }),
    {
        proof {
            assert(all[start as int] == raw@[start as int]@);
        }
        let t = trim_start_text(raw[start].as_str());
        if starts_with_text(t.as_str(), "xychart-beta") {
            found = true;
        } else {
            start = start + 1;
        }
    }
    if !found {
        return text(content);
    }
    let mut end: usize = start + 1;
    let mut open = true;
    while end < raw.len() && open
        invariant
            start < end <= raw@.len(),
            all == raw.deep_view(),
            open ==> chart_end(all, start + 1) == chart_end(all, end as int),
            !open ==> chart_end(all, start + 1) == end,
        decreases raw@.len() - end + (if open { 1int } else { 0int }),
    {
        proof {
            assert(all[end as int] == raw@[end as int]@);
        }
        let trimmed = trim_text(raw[end].as_str());
        if trimmed.as_str().is_empty() {
            end = end + 1;
            open = false;
        } else if line_continues_chart(raw[end].as_str()) {
            end = end + 1;
        } else {
            open = false;
        }
    }
    let mut kept: Vec<String> = Vec::new();
    let mut i: usize = 0;
    while i < start
        invariant
            i <= start < raw@.len(),
            kept@.len() == i,
            forall|j: int| 0 <= j < i ==> (#[trigger] kept@[j])@ == raw@[j]@,
        decreases start - i,
    {
        kept.push(raw[i].clone());
        i = i + 1;
    }
    i = end;
    while i < raw.len()
        invariant
            start < end <= i <= raw@.len(),
            kept@.len() == start + (i - end),
            forall|j: int| 0 <= j < start ==> (#[trigger] kept@[j])@ == raw@[j]@,
            forall|j: int|
                start <= j < kept@.len() ==> (#[trigger] kept@[j])@ == raw@[end + (j - start)]@,
        decreases raw@.len() - i,
    {
        kept.push(raw[i].clone());
        i = i + 1;
    }
    proof {
        assert(kept.deep_view() =~= all.take(start as int) + all.skip(end as int));
    }
    trim_text(join_text(&kept, "\n").as_str())
}

// ---------------------------------------------------------------------------
// Drawing a chart as a UI surface
// ---------------------------------------------------------------------------
/// An identifier made of a prefix and a number.
pub open spec fn numbered(prefix: Seq<char>, n: nat) -> Seq<char> {
    prefix + decimal(n)
}

/// An identifier made of a prefix and a number.
pub fn numbered_text(prefix: &str, n: u64) -> (r: String)
    ensures
        r@ == numbered(prefix@, n as nat),
{
    let mut s = text(prefix);
    put(&mut s, decimal_text(n).as_str());
    s
}

/// The smaller of two numbers.
pub open spec fn least(a: u64, b: u64) -> u64 {
    if a < b {
        a
    } else {
        b
    }
}

/// The row of one bar.
pub open spec fn row_component(n: nat) -> JsonV {
    JsonV::Object(
        Seq::empty()
            .push(("id"@, JsonV::Text(numbered("row_"@, n))))
            .push(("component"@, JsonV::Text("Row"@)))
            .push(("children"@, texts_json(seq![numbered("bar_"@, n), numbered("value_"@, n)])))
            .push(("align"@, JsonV::Text("center"@)))
            .push(("justify"@, JsonV::Text("spaceBetween"@))),
    )
}

/// The slider of one bar.
pub open spec fn slider_component(n: nat, label: Seq<char>, value: u64, y_max: u64) -> JsonV {
    JsonV::Object(
        Seq::empty()
            .push(("id"@, JsonV::Text(numbered("bar_"@, n))))
            .push(("component"@, JsonV::Text("Slider"@)))
            .push(("label"@, JsonV::Text(label)))
            .push(("min"@, JsonV::Unsigned(0)))
            .push(("max"@, JsonV::Unsigned(y_max)))
            .push(("value"@, JsonV::Unsigned(least(value, y_max)))),
    )
}

/// The caption of one bar.
pub open spec fn caption_component(n: nat, value: u64) -> JsonV {
    JsonV::Object(
        Seq::empty()
            .push(("id"@, JsonV::Text(numbered("value_"@, n))))
            .push(("component"@, JsonV::Text("Text"@)))
            .push(("variant"@, JsonV::Text("caption"@)))
            .push(("text"@, JsonV::Text(decimal(value as nat)))),
    )
}

/// The three components of one bar: a row with a slider and a caption.
pub open spec fn bar_components(n: nat, label: Seq<char>, value: u64, y_max: u64) -> Seq<JsonV> {
    seq![row_component(n), slider_component(n, label, value, y_max), caption_component(n, value)]
}

/// The components of the first `n` bars.
pub open spec fn bars(chart: ChartV, n: int) -> Seq<JsonV>
    decreases n,
{
    if n <= 0 {
        seq![]
    } else {
        bars(chart, n - 1) + bar_components(
            n as nat,
            chart.labels[n - 1],
            chart.values[n - 1],
            chart.y_max,
        )
    }
}

impl ChartV {
    /// How many bars have both a label and a value.
    pub open spec fn bar_count(self) -> nat {
        if self.labels.len() < self.values.len() {
            self.labels.len()
        } else {
            self.values.len()
        }
    }

    /// The components of the chart: a column with a title and the bars.
    pub open spec fn components(self) -> Seq<JsonV> {
        seq![
            JsonV::Object(
                Seq::empty()
                    .push(("id"@, JsonV::Text("root"@)))
                    .push(("component"@, JsonV::Text("Column"@)))
                    .push(("children"@, texts_json(seq!["title"@, "bars"@])))
                    .push(("align"@, JsonV::Text("stretch"@))),
            ),
            JsonV::Object(
                Seq::empty()
                    .push(("id"@, JsonV::Text("title"@)))
                    .push(("component"@, JsonV::Text("Text"@)))
                    .push(("variant"@, JsonV::Text("h3"@)))
                    .push(("text"@, JsonV::Text(match self.title { Some(t) => t, None => "Chart"@, }))),
            ),
        ] + bars(self, self.bar_count() as int) + seq![
            JsonV::Object(
                Seq::empty()
                    .push(("id"@, JsonV::Text("bars"@)))
                    .push(("component"@, JsonV::Text("Column"@)))
                    .push(("children"@, texts_json(Seq::new(self.bar_count(), |i: int| numbered("row_"@, (i + 1) as nat)))))
                    .push(("align"@, JsonV::Text("stretch"@))),
            ),
        ]
    }

    /// The two messages that create the surface and fill it.
    pub open spec fn surface(self, seq_no: u64) -> Seq<JsonV> {
        let id = numbered("chart_"@, seq_no as nat);
        seq![
            JsonV::Object(
                Seq::empty()
                    .push(("version"@, JsonV::Text("v0.9"@)))
                    .push(("createSurface"@, JsonV::Object(
                        Seq::empty()
                            .push(("surfaceId"@, JsonV::Text(id)))
                            .push(("catalogId"@, JsonV::Text("https://a2ui.org/specification/v0_9/basic_catalog.json"@))),
                    ),
                    )),
            ),
            JsonV::Object(
                Seq::empty()
                    .push(("version"@, JsonV::Text("v0.9"@)))
                    .push(("updateComponents"@, JsonV::Object(
                        Seq::empty()
                            .push(("surfaceId"@, JsonV::Text(id)))
                            .push(("components"@, JsonV::Array(self.components()))),
                    ),
                    )),
            ),
        ]
    }
}

/// An array of two texts.
fn two_texts(a: &str, b: &str) -> (r: Json)
    ensures
        r@ == texts_json(seq![a@, b@]),
{
    let mut v: Vec<String> = Vec::new();
    v.push(text(a));
    v.push(text(b));
    proof {
        assert(v.deep_view() =~= seq![a@, b@]);
    }
    text_array(&v)
}

fn build_row(n: u64) -> (r: Json)
    ensures
        r@ == row_component(n as nat),
{
    let mut row = no_fields();
    put_text(&mut row, "id", numbered_text("row_", n).as_str());
    put_text(&mut row, "component", "Row");
    put_field(
        &mut row,
        "children",
        two_texts(numbered_text("bar_", n).as_str(), numbered_text("value_", n).as_str()),
    );
    put_text(&mut row, "align", "center");
    put_text(&mut row, "justify", "spaceBetween");
    object(row)
}

fn build_slider(n: u64, label: &str, value: u64, y_max: u64) -> (r: Json)
    ensures
        r@ == slider_component(n as nat, label@, value, y_max),
{
    let shown: u64 = if value < y_max {
        value
    } else {
        y_max
    };
    let mut slider = no_fields();
    put_text(&mut slider, "id", numbered_text("bar_", n).as_str());
    put_text(&mut slider, "component", "Slider");
    put_text(&mut slider, "label", label);
    put_field(&mut slider, "min", Json::Unsigned(0));
    put_field(&mut slider, "max", Json::Unsigned(y_max));
    put_field(&mut slider, "value", Json::Unsigned(shown));
    object(slider)
}

fn build_caption(n: u64, value: u64) -> (r: Json)
    ensures
        r@ == caption_component(n as nat, value),
{
    let mut caption = no_fields();
    put_text(&mut caption, "id", numbered_text("value_", n).as_str());
    put_text(&mut caption, "component", "Text");
    put_text(&mut caption, "variant", "caption");
    put_text(&mut caption, "text", decimal_text(value).as_str());
    object(caption)
}

/// Adds the three components of one bar.
fn put_bar(components: &mut Vec<Json>, n: u64, label: &str, value: u64, y_max: u64)
    ensures
        items_view(final(components)@) == items_view(old(components)@) + bar_components(
            n as nat,
            label@,
            value,
            y_max,
        ),
{
    put_item(components, build_row(n));
    put_item(components, build_slider(n, label, value, y_max));
    put_item(components, build_caption(n, value));
    proof {
        assert(items_view(components@) =~= items_view(old(components)@) + bar_components(
            n as nat,
            label@,
            value,
            y_max,
        ));
    }
}

/// The messages that draw a chart on a surface with the given number.
pub fn build_a2ui_messages_from_mermaid_xychart(spec_: &MermaidXyChartSpec, seq_no: u64) -> (r: Vec<
    Json,
>)
    ensures
        items_view(r@) == spec_.deep_view().surface(seq_no),
{
    let ghost chart = spec_.deep_view();
    let surface_id = numbered_text("chart_", seq_no);
    let mut components: Vec<Json> = Vec::new();
    let mut row_ids: Vec<String> = Vec::new();
    proof {
        assert(items_view(components@) =~= Seq::<JsonV>::empty());
    }
    let mut root = no_fields();
    put_text(&mut root, "id", "root");
    put_text(&mut root, "component", "Column");
    put_field(&mut root, "children", two_texts("title", "bars"));
    put_text(&mut root, "align", "stretch");
    put_item(&mut components, object(root));
    let mut title = no_fields();
    put_text(&mut title, "id", "title");
    put_text(&mut title, "component", "Text");
    put_text(&mut title, "variant", "h3");
    put_text(
        &mut title,
        "text",
        match &spec_.title {
            Some(t) => t.as_str(),
            None => "Chart",
        },
    );
    put_item(&mut components, object(title));
    let ghost head = items_view(components@);
    let n: usize = if spec_.labels.len() < spec_.values.len() {
        spec_.labels.len()
    } else {
        spec_.values.len()
    };
    let mut i: usize = 0;
    proof {
        assert(head + bars(chart, 0) =~= head);
    }
    while i < n
        invariant
            i <= n,
            n == chart.bar_count(),
            chart == spec_.deep_view(),
            items_view(components@) == head + bars(chart, i as int),
            row_ids@.len() == i,
            forall|j: int|
                0 <= j < i ==> (#[trigger] row_ids@[j])@ == numbered("row_"@, (j + 1) as nat),
        decreases n - i,
    {
        row_ids.push(numbered_text("row_", i as u64 + 1));
        put_bar(
            &mut components,
            i as u64 + 1,
            spec_.labels[i].as_str(),
            spec_.values[i],
            spec_.y_max,
        );
        i = i + 1;
        proof {
            assert(items_view(components@) =~= head + bars(chart, i as int));
        }
    }
    proof {
        assert(row_ids.deep_view() =~= Seq::new(
            chart.bar_count(),
            |i: int| numbered("row_"@, (i + 1) as nat),
        ));
    }
    let mut bar_column = no_fields();
    put_text(&mut bar_column, "id", "bars");
    put_text(&mut bar_column, "component", "Column");
    put_field(&mut bar_column, "children", text_array(&row_ids));
    put_text(&mut bar_column, "align", "stretch");
    put_item(&mut components, object(bar_column));
    proof {
        assert(items_view(components@) =~= chart.components());
    }
    let mut create = no_fields();
    put_text(&mut create, "surfaceId", surface_id.as_str());
    put_text(
        &mut create,
        "catalogId",
        "https://a2ui.org/specification/v0_9/basic_catalog.json",
    );
    let mut first = no_fields();
    put_text(&mut first, "version", "v0.9");
    put_field(&mut first, "createSurface", object(create));
    let mut update = no_fields();
    put_text(&mut update, "surfaceId", surface_id.as_str());
    put_field(&mut update, "components", array(components));
    let mut second = no_fields();
    put_text(&mut second, "version", "v0.9");
    put_field(&mut second, "updateComponents", object(update));
    let mut out: Vec<Json> = Vec::new();
    proof {
        assert(items_view(out@) =~= Seq::<JsonV>::empty());
    }
    put_item(&mut out, object(first));
    put_item(&mut out, object(second));
    out
}

// ---------------------------------------------------------------------------
// Laws
// ---------------------------------------------------------------------------
proof fn lemma_largest(values: Seq<u64>)
    ensures
        largest(values) >= 1,
        forall|i: int| 0 <= i < values.len() ==> #[trigger] values[i] <= largest(values),
    decreases values.len(),
{
    if values.len() > 0 {
        let rest = values.drop_last();
        lemma_largest(rest);
        assert forall|i: int| 0 <= i < values.len() implies #[trigger] values[i] <= largest(
            values,
        ) by {
            if i < rest.len() {
                assert(rest[i] == values[i]);
            }
        }
    }
}

/// An axis that was declared is one that a machine can count to.
proof fn lemma_declared_axis(raw: Seq<Seq<char>>)
    ensures
        ReadV::all_lines(raw).y_max matches Some(n) ==> n <= u64::MAX,
    decreases raw.len(),
{
    if raw.len() > 0 {
        lemma_declared_axis(raw.drop_last());
    }
}

/// A chart that was read can be drawn: it has a bar, one label for each value, and
/// an axis that reaches every value.
pub proof fn law_charts_can_be_drawn(content: Seq<char>)
    ensures
        chart_of(content) matches Some(chart) ==> {
            &&& chart.values.len() > 0
            &&& chart.labels.len() == chart.values.len()
            &&& chart.y_max >= 1
            &&& forall|i: int| 0 <= i < chart.values.len() ==> #[trigger] chart.values[i]
                <= chart.y_max
        },
{
    if let Some(chart) = chart_of(content) {
        lemma_largest(chart.values);
        lemma_declared_axis(lines(content));
    }
}

proof fn lemma_bars(chart: ChartV, n: int)
    requires
        0 <= n,
    ensures
        bars(chart, n).len() == 3 * n,
        forall|i: int|
            0 <= i < n ==> {
                &&& bars(chart, n)[3 * i] == row_component((i + 1) as nat)
                &&& #[trigger] bars(chart, n)[3 * i + 1] == slider_component(
                    (i + 1) as nat,
                    chart.labels[i],
                    chart.values[i],
                    chart.y_max,
                )
                &&& bars(chart, n)[3 * i + 2] == caption_component(
                    (i + 1) as nat,
                    chart.values[i],
                )
            },
    decreases n,
{
    if n > 0 {
        lemma_bars(chart, n - 1);
        let before = bars(chart, n - 1);
        let all = bars(chart, n);
        assert forall|i: int| 0 <= i < n implies {
            &&& all[3 * i] == row_component((i + 1) as nat)
            &&& #[trigger] all[3 * i + 1] == slider_component(
                (i + 1) as nat,
                chart.labels[i],
                chart.values[i],
                chart.y_max,
            )
            &&& all[3 * i + 2] == caption_component((i + 1) as nat, chart.values[i])
        } by {
            if i < n - 1 {
                assert(all[3 * i] == before[3 * i]);
                assert(all[3 * i + 1] == before[3 * i + 1]);
                assert(all[3 * i + 2] == before[3 * i + 2]);
            }
        }
    }
}

/// Whether a component is a slider that shows a value under a label, on a scale from
/// nothing to `top`.
pub open spec fn is_slider(
    j: JsonV,
    id: Seq<char>,
    label: Seq<char>,
    value: u64,
    top: u64,
) -> bool {
    &&& says(j, "id"@, id)
    &&& says(j, "component"@, "Slider"@)
    &&& says(j, "label"@, label)
    &&& at(j, "min"@) == Some(JsonV::Unsigned(0))
    &&& at(j, "max"@) == Some(JsonV::Unsigned(top))
    &&& at(j, "value"@) == Some(JsonV::Unsigned(value))
}

/// Whether a component is a text.
pub open spec fn is_caption(j: JsonV, id: Seq<char>, shown: Seq<char>) -> bool {
    says(j, "id"@, id) && says(j, "component"@, "Text"@) && says(j, "text"@, shown)
}

proof fn lemma_components(n: nat, label: Seq<char>, value: u64, y_max: u64)
    ensures
        value <= y_max ==> is_slider(
            slider_component(n, label, value, y_max),
            "bar_"@ + decimal(n),
            label,
            value,
            y_max,
        ),
        value > y_max ==> is_slider(
            slider_component(n, label, value, y_max),
            "bar_"@ + decimal(n),
            label,
            y_max,
            y_max,
        ),
        is_caption(
            caption_component(n, value),
            "value_"@ + decimal(n),
            decimal(value as nat),
        ),
        says(row_component(n), "id"@, "row_"@ + decimal(n)),
        says(row_component(n), "component"@, "Row"@),
        at(row_component(n), "children"@) == Some(
            JsonV::Array(
                seq![
                    JsonV::Text("bar_"@ + decimal(n)),
                    JsonV::Text("value_"@ + decimal(n)),
                ],
            ),
        ),
{
    reveal_strlit("id");
    reveal_strlit("component");
    reveal_strlit("label");
    reveal_strlit("min");
    reveal_strlit("max");
    reveal_strlit("value");
    reveal_strlit("variant");
    reveal_strlit("text");
    reveal_strlit("children");
    assert("id"@.len() == 2 && "component"@.len() == 9 && "label"@.len() == 5 && "min"@.len() == 3
        && "max"@.len() == 3 && "value"@.len() == 5 && "variant"@.len() == 7 && "text"@.len() == 4
        && "children"@.len() == 8);
    assert("min"@[1] == 'i' && "max"@[1] == 'a' && "label"@[0] == 'l' && "value"@[0] == 'v');
    reveal_with_fuel(crate::json::field_at, 7);
    let ids = seq![numbered("bar_"@, n), numbered("value_"@, n)];
    let shown = seq![JsonV::Text("bar_"@ + decimal(n)), JsonV::Text("value_"@ + decimal(n))];
    assert(texts_json(ids)->Array_0 =~= shown);
}

/// The bars of a chart are drawn as they are: for each label and value, in order, a row
/// with a slider that stands at the value, or at the end of the axis where the value
/// lies beyond it, with the label beside it, and a text that tells the value.
pub proof fn law_bars_show_their_values(chart: ChartV, i: int)
    requires
        0 <= i < chart.labels.len(),
        0 <= i < chart.values.len(),
    ensures
        ({
            let parts = chart.components();
            let number = decimal((i + 1) as nat);
            &&& parts.len() == 3 + 3 * (if chart.labels.len() < chart.values.len() {
                chart.labels.len()
            } else {
                chart.values.len()
            })
            &&& says(parts[2 + 3 * i], "id"@, "row_"@ + number)
            &&& at(parts[2 + 3 * i], "children"@) == Some(
                JsonV::Array(
                    seq![JsonV::Text("bar_"@ + number), JsonV::Text("value_"@ + number)],
                ),
            )
            &&& chart.values[i] <= chart.y_max ==> is_slider(
                parts[3 + 3 * i],
                "bar_"@ + number,
                chart.labels[i],
                chart.values[i],
                chart.y_max,
            )
            &&& chart.values[i] > chart.y_max ==> is_slider(
                parts[3 + 3 * i],
                "bar_"@ + number,
                chart.labels[i],
                chart.y_max,
                chart.y_max,
            )
            &&& is_caption(
                parts[4 + 3 * i],
                "value_"@ + number,
                decimal(chart.values[i] as nat),
            )
        }),
{
    let n = chart.bar_count() as int;
    lemma_bars(chart, n);
    lemma_components((i + 1) as nat, chart.labels[i], chart.values[i], chart.y_max);
    let all = bars(chart, n);
    let parts = chart.components();
    assert(parts[2 + 3 * i] == all[3 * i]);
    assert(parts[3 + 3 * i] == all[3 * i + 1]);
    assert(parts[4 + 3 * i] == all[3 * i + 2]);
}

/// A chart stands under its title, or under a plain one where it has none, and all its
/// rows belong to it, in order.
pub proof fn law_charts_show_their_title(chart: ChartV, i: int)
    ensures
        ({
            let parts = chart.components();
            &&& says(parts[0], "id"@, "root"@)
            &&& at(parts[0], "children"@) == Some(
                JsonV::Array(seq![JsonV::Text("title"@), JsonV::Text("bars"@)]),
            )
            &&& chart.title matches Some(t) ==> is_caption(parts[1], "title"@, t)
            &&& chart.title is None ==> is_caption(parts[1], "title"@, "Chart"@)
            &&& says(parts.last(), "id"@, "bars"@)
            &&& at(parts.last(), "children"@) matches Some(JsonV::Array(rows)) && rows.len()
                == chart.bar_count() && (0 <= i < rows.len() ==> rows[i] == JsonV::Text(
                "row_"@ + decimal((i + 1) as nat),
            ))
        }),
{
    reveal_strlit("id");
    reveal_strlit("component");
    reveal_strlit("variant");
    reveal_strlit("text");
    reveal_strlit("children");
    assert("id"@.len() == 2 && "component"@.len() == 9 && "variant"@.len() == 7 && "text"@.len()
        == 4 && "children"@.len() == 8);
    reveal_with_fuel(crate::json::field_at, 6);
    let n = chart.bar_count() as int;
    lemma_bars(chart, n);
    let parts = chart.components();
    assert(parts.len() == 3 + 3 * n);
    let names = seq!["title"@, "bars"@];
    assert(texts_json(names)->Array_0 =~= seq![JsonV::Text("title"@), JsonV::Text("bars"@)]);
}

/// A chart becomes two messages: one creates the surface with the given number, and one
/// fills that surface with the chart's components.
pub proof fn law_charts_become_surfaces(chart: ChartV, seq_no: u64)
    ensures
        ({
            let messages = chart.surface(seq_no);
            let id = "chart_"@ + decimal(seq_no as nat);
            &&& messages.len() == 2
            &&& says(inner(messages[0], "createSurface"@), "surfaceId"@, id)
            &&& says(inner(messages[1], "updateComponents"@), "surfaceId"@, id)
            &&& at(inner(messages[1], "updateComponents"@), "components"@) == Some(
                JsonV::Array(chart.components()),
            )
            &&& says(messages[0], "version"@, "v0.9"@)
            &&& says(messages[1], "version"@, "v0.9"@)
        }),
{
    reveal_strlit("version");
    reveal_strlit("createSurface");
    reveal_strlit("updateComponents");
    reveal_strlit("surfaceId");
    reveal_strlit("catalogId");
    reveal_strlit("components");
    assert("version"@.len() == 7 && "createSurface"@.len() == 13 && "updateComponents"@.len() == 16
        && "surfaceId"@.len() == 9 && "components"@.len() == 10);
    reveal_with_fuel(crate::json::field_at, 4);
}

proof fn lemma_first_char(s: Seq<char>, c: char, from: int, i: int)
    requires
        0 <= from <= i < s.len(),
        s[i] == c,
        forall|k: int| from <= k < i ==> #[trigger] s[k] != c,
    ensures
        first_at(s, seq![c], from) == Some(i),
{
    let p = seq![c];
    lemma_first_at(s, p, from);
    assert(s.subrange(i, i + 1) =~= p);
    assert(crate::text::occurs_at(s, p, i));
    let j = first_at(s, p, from).unwrap();
    if j < i {
        assert(s.subrange(j, j + 1)[0] == c);
        assert(s[j] == c);
    }
}

/// What stands between the first two marks is found, whatever stands around them.
pub proof fn law_enclosed_texts_are_found(
    before: Seq<char>,
    inside: Seq<char>,
    after: Seq<char>,
    open: char,
    close: char,
)
    requires
        forall|k: int| 0 <= k < before.len() ==> #[trigger] before[k] != open,
        forall|k: int| 0 <= k < inside.len() ==> #[trigger] inside[k] != close,
    ensures
        between(before.push(open) + inside.push(close) + after, open, close) == Some(inside),
        between(before, open, close) is None,
{
    let s = before.push(open) + inside.push(close) + after;
    let i = before.len() as int;
    let j = i + 1 + inside.len();
    assert(s[i] == open);
    assert forall|k: int| 0 <= k < i implies #[trigger] s[k] != open by {
        assert(s[k] == before[k]);
    }
    lemma_first_char(s, open, 0, i);
    assert(s[j] == close);
    assert forall|k: int| i + 1 <= k < j implies #[trigger] s[k] != close by {
        assert(s[k] == inside[k - i - 1]);
    }
    lemma_first_char(s, close, i + 1, j);
    assert(s.subrange(i + 1, j) =~= inside);
    lemma_first_at(before, seq![open], 0);
    if let Some(k) = first_at(before, seq![open], 0) {
        assert(before.subrange(k, k + 1)[0] == open);
        assert(before[k] == open);
    }
}

/// The items of a list are its parts between commas, in order: blank ones are left out,
/// and white space and quotes around the others are dropped.
pub proof fn law_items_of_lists(parts: Seq<Seq<char>>, part: Seq<char>, word: Seq<char>)
    ensures
        list_items(seq![]).len() == 0,
        trim(part).len() == 0 ==> list_items(parts.push(part)) == list_items(parts),
        trim(part) == word && word.len() > 0 && word[0] != '"' && word[0] != '\'' && word.last()
            != '"' && word.last() != '\'' ==> list_items(parts.push(part)) == list_items(
            parts,
        ).push(word),
        trim(part) == seq!['"'] + word + seq!['"'] && word.len() > 0 && word[0] != '"' && word[0]
            != '\'' && word.last() != '"' && word.last() != '\'' ==> list_items(parts.push(part))
            == list_items(parts).push(word),
{
    assert(parts.push(part).drop_last() =~= parts);
    if word.len() > 0 && word[0] != '"' && word[0] != '\'' && word.last() != '"' && word.last()
        != '\'' {
        assert(strip_both(word, '"') == word);
        assert(strip_both(word, '\'') == word);
        let quoted = seq!['"'] + word + seq!['"'];
        assert(quoted.drop_first() =~= word + seq!['"']);
        assert((word + seq!['"'])[0] == word[0]);
        assert(strip_front(word + seq!['"'], '"') == word + seq!['"']);
        assert((word + seq!['"']).drop_last() =~= word);
        assert(strip_back(word, '"') == word);
        assert(strip_back(word + seq!['"'], '"') == word);
        assert(strip_both(quoted, '"') == word);
    }
}

/// The numbers in a list are its items that are numbers, in order.
pub proof fn law_numbers_in_lists(items: Seq<Seq<char>>, item: Seq<char>, n: u64)
    ensures
        numbers_in(seq![]).len() == 0,
        numbers_in(items.push(decimal(n as nat))) == numbers_in(items).push(n),
        parse_number(item, u64::MAX as nat) is None ==> numbers_in(items.push(item)) == numbers_in(
            items,
        ),
{
    assert(items.push(item).drop_last() =~= items);
    assert(items.push(decimal(n as nat)).drop_last() =~= items);
    law_numbers_are_read(n as nat, u64::MAX as nat, seq![]);
}

proof fn lemma_keywords()
    ensures
        "title "@.len() == 6,
        "x-axis "@.len() == 7,
        "bar "@.len() == 4,
        "y-axis "@.len() == 7,
        "title "@[0] == 't',
        "x-axis "@[0] == 'x',
        "bar "@[0] == 'b',
        "y-axis "@[0] == 'y',
{
    reveal_strlit("title ");
    reveal_strlit("x-axis ");
    reveal_strlit("bar ");
    reveal_strlit("y-axis ");
}

proof fn lemma_begins(s: Seq<char>, p: Seq<char>, rest: Seq<char>)
    requires
        s == p + rest,
        p.len() > 0,
    ensures
        starts_with(s, p),
        s[0] == p[0],
{
    assert(s.subrange(0, p.len() as int) =~= p);
}

proof fn lemma_begins_otherwise(s: Seq<char>, p: Seq<char>)
    requires
        p.len() > 0,
        s.len() == 0 || s[0] != p[0],
    ensures
        !starts_with(s, p),
{
    if starts_with(s, p) {
        assert(s.subrange(0, p.len() as int)[0] == p[0]);
    }
}

/// A chart is read line by line: the title is what stands in quotes behind `title`, the
/// labels are the list behind `x-axis`, the values the numbers in the list behind
/// `bar`, and the top of the axis is the number behind the arrow of `y-axis`. A line
/// says nothing of anything else, and any other line says nothing.
pub proof fn law_lines_of_charts(
    read: ReadV,
    raw: Seq<char>,
    rest: Seq<char>,
    from: Seq<char>,
    n: u64,
)
    ensures
        trim(raw) == "title "@ + rest ==> read.line(raw) == (ReadV {
            title: between("title "@ + rest, '"', '"'),
            ..read
        }),
        trim(raw) == "x-axis "@ + rest ==> read.line(raw) == (ReadV {
            labels: array_items("x-axis "@ + rest),
            ..read
        }),
        trim(raw) == "bar "@ + rest ==> read.line(raw) == (ReadV {
            values: numbers_in(array_items("bar "@ + rest)),
            ..read
        }),
        trim(raw) == "y-axis "@ + from + "-->"@ + rest && trim(rest) == decimal(n as nat) && (
        forall|k: int| 0 <= k < from.len() ==> #[trigger] from[k] != '-') ==> read.line(raw) == (
        ReadV { y_max: Some(n as nat), ..read }),
        trim(raw).len() == 0 || (trim(raw)[0] != 't' && trim(raw)[0] != 'x' && trim(raw)[0] != 'b'
            && trim(raw)[0] != 'y') ==> read.line(raw) == read,
{
    lemma_keywords();
    let t = trim(raw);
    if t == "title "@ + rest {
        lemma_begins(t, "title "@, rest);
    }
    if t == "x-axis "@ + rest {
        lemma_begins(t, "x-axis "@, rest);
        lemma_begins_otherwise(t, "title "@);
    }
    if t == "bar "@ + rest {
        lemma_begins(t, "bar "@, rest);
        lemma_begins_otherwise(t, "title "@);
        lemma_begins_otherwise(t, "x-axis "@);
    }
    if t == "y-axis "@ + from + "-->"@ + rest && trim(rest) == decimal(n as nat) && (forall|k: int|
        0 <= k < from.len() ==> #[trigger] from[k] != '-') {
        assert(t =~= "y-axis "@ + (from + "-->"@ + rest));
        lemma_begins(t, "y-axis "@, from + "-->"@ + rest);
        lemma_begins_otherwise(t, "title "@);
        lemma_begins_otherwise(t, "x-axis "@);
        lemma_begins_otherwise(t, "bar "@);
        lemma_arrow(t, from, rest);
        law_numbers_are_read(n as nat, u64::MAX as nat, seq![]);
    }
    if t.len() == 0 || (t[0] != 't' && t[0] != 'x' && t[0] != 'b' && t[0] != 'y') {
        lemma_begins_otherwise(t, "title "@);
        lemma_begins_otherwise(t, "x-axis "@);
        lemma_begins_otherwise(t, "bar "@);
        lemma_begins_otherwise(t, "y-axis "@);
    }
}

proof fn lemma_arrow(t: Seq<char>, from: Seq<char>, rest: Seq<char>)
    requires
        t == "y-axis "@ + from + "-->"@ + rest,
        forall|k: int| 0 <= k < from.len() ==> #[trigger] from[k] != '-',
    ensures
        first_at(t, "-->"@, 0) == Some(7 + from.len() as int),
        t.skip(7 + from.len() as int + 3) == rest,
{
    reveal_strlit("y-axis ");
    reveal_strlit("-->");
    let p = "-->"@;
    let i = 7 + from.len() as int;
    assert(t.subrange(i, i + 3) =~= p);
    assert(crate::text::occurs_at(t, p, i));
    lemma_first_at(t, p, 0);
    let j = first_at(t, p, 0).unwrap();
    if j < i {
        let found = t.subrange(j, j + 3);
        assert(found[0] == '-' && found[1] == '-');
        assert(t[j] == '-' && t[j + 1] == '-');
        if j < 7 {
            assert(t[j] == "y-axis "@[j]);
            assert(j == 1);
            assert(t[2] == "y-axis "@[2]);
        } else {
            assert(t[j] == from[j - 7]);
        }
    }
    assert(t.skip(i + 3) =~= rest);
}

/// Lines are read one after the other, a later one over an earlier one. What was read
/// is a chart where it has values: with these values, with its labels where there is
/// one for each and numbered ones else, and with an axis that reaches as far as was
/// declared, but at least to the largest value.
pub proof fn law_charts_are_what_was_read(raw: Seq<Seq<char>>, line: Seq<char>, read: ReadV)
    ensures
        ReadV::all_lines(seq![]) == (ReadV {
            title: None,
            labels: seq![],
            values: seq![],
            y_max: None,
        }),
        ReadV::all_lines(raw.push(line)) == ReadV::all_lines(raw).line(line),
        read.chart() is None <==> read.values.len() == 0,
        read.chart() matches Some(chart) ==> {
            &&& chart.values == read.values
            &&& chart.title == read.title
            &&& chart.labels.len() == read.values.len()
            &&& read.labels.len() == read.values.len() ==> chart.labels == read.labels
            &&& read.labels.len() != read.values.len() ==> forall|i: int|
                0 <= i < read.values.len() ==> #[trigger] chart.labels[i] == "Item "@ + decimal(
                    (i + 1) as nat,
                )
            &&& read.y_max is None || read.y_max.unwrap() <= u64::MAX ==> forall|i: int|
                0 <= i < read.values.len() ==> #[trigger] read.values[i] <= chart.y_max
            &&& read.y_max is None ==> chart.y_max == 1 || read.values.contains(chart.y_max)
            &&& read.y_max matches Some(n) ==> (n <= u64::MAX && (forall|i: int|
                0 <= i < read.values.len() ==> #[trigger] read.values[i] <= n) && n > 0
                ==> chart.y_max == n)
        },
{
    assert(raw.push(line).drop_last() =~= raw);
    lemma_largest(read.values);
    lemma_largest_is_one_of_them(read.values);
}

proof fn lemma_largest_is_one_of_them(values: Seq<u64>)
    ensures
        largest(values) == 1 || values.contains(largest(values)),
    decreases values.len(),
{
    if values.len() > 0 {
        lemma_largest_is_one_of_them(values.drop_last());
        let m = largest(values.drop_last());
        if values.last() > m {
            assert(values[values.len() - 1] == values.last());
        } else if values.drop_last().contains(m) {
            let i = choose|i: int|
                0 <= i < values.drop_last().len() && values.drop_last()[i] == m;
            assert(values[i] == m);
        }
    }
}

/// Taking a chart out of a text takes out the line that opens it, the lines that belong
/// to it and one blank line after them, and leaves the other lines in their order.
pub proof fn law_charts_are_taken_out(
    content: Seq<char>,
    before: Seq<Seq<char>>,
    chart: Seq<Seq<char>>,
    after: Seq<Seq<char>>,
)
    requires
        chart.len() > 0,
        opens_chart(chart[0]),
        forall|i: int| 0 <= i < before.len() ==> !opens_chart(#[trigger] before[i]),
        forall|i: int|
            1 <= i < chart.len() ==> continues_chart(#[trigger] chart[i]) && trim(chart[i]).len()
                > 0,
        after.len() > 0 ==> !continues_chart(after[0]) && trim(after[0]).len() > 0,
    ensures
        lines(content) == before + chart + after ==> without_chart(content) == trim(
            join(before + after, "\n"@),
        ),
        lines(content) == before ==> without_chart(content) == content,
{
    if lines(content) == before {
        lemma_no_chart(before, 0);
    }
    let all = before + chart + after;
    if lines(content) == all {
        lemma_chart_start(before, chart + after, 0);
        assert(all =~= before + (chart + after));
        let i = before.len() as int;
        lemma_chart_end(all, i + 1, i + chart.len());
        assert(all.take(i) + all.skip(i + chart.len()) =~= before + after);
    }
}

proof fn lemma_no_chart(all: Seq<Seq<char>>, from: int)
    requires
        0 <= from <= all.len(),
        forall|i: int| 0 <= i < all.len() ==> !opens_chart(#[trigger] all[i]),
    ensures
        chart_start(all, from) is None,
    decreases all.len() - from,
{
    if from < all.len() {
        lemma_no_chart(all, from + 1);
    }
}

proof fn lemma_chart_start(before: Seq<Seq<char>>, rest: Seq<Seq<char>>, from: int)
    requires
        0 <= from <= before.len(),
        rest.len() > 0,
        opens_chart(rest[0]),
        forall|i: int| 0 <= i < before.len() ==> !opens_chart(#[trigger] before[i]),
    ensures
        chart_start(before + rest, from) == Some(before.len() as int),
    decreases before.len() - from,
{
    let all = before + rest;
    if from < before.len() {
        assert(all[from] == before[from]);
        lemma_chart_start(before, rest, from + 1);
    } else {
        assert(all[from] == rest[0]);
    }
}

proof fn lemma_chart_end(all: Seq<Seq<char>>, from: int, end: int)
    requires
        0 <= from <= end <= all.len(),
        forall|i: int|
            from <= i < end ==> continues_chart(#[trigger] all[i]) && trim(all[i]).len() > 0,
        end < all.len() ==> !continues_chart(all[end]) && trim(all[end]).len() > 0,
    ensures
        chart_end(all, from) == end,
    decreases end - from,
{
    if from < end {
        lemma_chart_end(all, from + 1, end);
    }
}

/// A line opens a chart where it begins with its keyword, white space aside. A line
/// belongs to the chart above it where it is indented or begins with one of the words
/// of a chart; a line that begins with anything else does not.
pub proof fn law_lines_that_belong_to_charts(line: Seq<char>, word: Seq<char>, rest: Seq<char>)
    ensures
        trim_start(line) == "xychart-beta"@ + rest ==> opens_chart(line),
        opens_chart(line) ==> trim_start(line).len() >= 12 && trim_start(line).take(12)
            == "xychart-beta"@,
        line.len() > 0 && (line[0] == ' ' || line[0] == '\t') ==> continues_chart(line),
        trim(line) == word + rest && (word == "title "@ || word == "x-axis "@ || word == "y-axis "@
            || word == "bar "@ || word == "line "@ || word == "scatter "@) ==> continues_chart(line),
        line.len() > 0 && line[0] != ' ' && line[0] != '\t' && trim(line).len() > 0
            && !seq!['t', 'x', 'y', 'b', 'l', 's'].contains(trim(line)[0]) ==> !continues_chart(
            line,
        ),
        line.len() == 0 ==> !continues_chart(line),
{
    lemma_keywords();
    reveal_strlit("line ");
    reveal_strlit("scatter ");
    reveal_strlit("xychart-beta");
    let t = trim(line);
    if t == word + rest && word.len() > 0 {
        lemma_begins(t, word, rest);
    }
    let s = trim_start(line);
    if s == "xychart-beta"@ + rest {
        lemma_begins(s, "xychart-beta"@, rest);
    }
    if opens_chart(line) {
        assert(s.subrange(0, 12) =~= s.take(12));
    }
    if line.len() == 0 {
        assert(t.len() == 0);
    }
    let firsts = seq!['t', 'x', 'y', 'b', 'l', 's'];
    assert(firsts[0] == 't' && firsts[1] == 'x' && firsts[2] == 'y' && firsts[3] == 'b' && firsts[4]
        == 'l' && firsts[5] == 's');
    if t.len() == 0 || !firsts.contains(t[0]) {
        lemma_begins_otherwise(t, "title "@);
        lemma_begins_otherwise(t, "x-axis "@);
        lemma_begins_otherwise(t, "y-axis "@);
        lemma_begins_otherwise(t, "bar "@);
        lemma_begins_otherwise(t, "line "@);
        lemma_begins_otherwise(t, "scatter "@);
    }
}

/// A text has a chart only where it holds the keyword of charts; it is then read from
/// all its lines.
pub proof fn law_texts_with_charts(a: Seq<char>, b: Seq<char>, content: Seq<char>)
    ensures
        chart_of(a + "xychart-beta"@ + b) == ReadV::all_lines(
            lines(a + "xychart-beta"@ + b),
        ).chart(),
        chart_of(content) is Some ==> exists|i: int|
            0 <= i && i + 12 <= content.len() && #[trigger] content.subrange(i, i + 12)
                == "xychart-beta"@,
{
    crate::text::law_texts_hold_their_parts(a, "xychart-beta"@, b, content);
    reveal_strlit("xychart-beta");
    if chart_of(content) is Some {
        let p = "xychart-beta"@;
        let i = choose|i: int| #[trigger] crate::text::occurs_at(content, p, i);
        assert(content.subrange(i, i + 12) == p);
    }
}

/// A chart holds what its model holds.
pub proof fn law_charts_hold_their_values(chart: MermaidXyChartSpec, i: int)
    ensures
        chart.deep_view().values == chart.values@,
        chart.deep_view().y_max == chart.y_max,
        chart.deep_view().labels.len() == chart.labels@.len(),
        0 <= i < chart.labels@.len() ==> chart.deep_view().labels[i] == chart.labels@[i]@,
        chart.title matches Some(t) ==> chart.deep_view().title == Some(t@),
        chart.title is None ==> chart.deep_view().title is None,
{
}

} // verus!
