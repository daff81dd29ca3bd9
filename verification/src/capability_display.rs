//! What the command line tells the user about the categories of the current
//! mode: the list of categories, the warnings when some or all requested
//! categories are unavailable, the defaults in use, and the answer to the
//! confirmation prompt. Text comes as lines of styled segments; the terminal
//! colours are applied when the lines are printed.
use vstd::prelude::*;
use crate::capabilities::{AnalysisCapabilities, AnalysisMode, UnavailableCategory, UnavailableReason};
use crate::category_kind::{Category, cli_name_of, description_of};
use crate::config::{AnalysisTarget, PackageSuggestion};
use crate::paths::path_parent_of;
use crate::text::{chars_of, push_str, to_owned_string};

verus! {

broadcast use vstd::seq_lib::group_seq_properties;

/// How a segment of text is shown on the terminal.
#[derive(Debug, Clone, Copy, PartialEq, Eq, Structural)]
pub enum Style {
    Plain,
    Bold,
    Green,
    Cyan,
    Red,
    BrightBlack,
    Yellow,
    YellowBold,
    RedBold,
    BrightBlue,
    BrightBlueBold,
    BrightYellowBold,
}

/// A piece of a line, with its style.
#[derive(Debug, Clone)]
pub struct Segment {
    pub style: Style,
    pub text: String,
}

/// The view of a line: its segments' styles and texts.
pub open spec fn line_view(line: Seq<Segment>) -> Seq<(Style, Seq<char>)> {
    line.map_values(|s: Segment| (s.style, s.text@))
}

/// The view of lines.
pub open spec fn lines_view(lines: Seq<Vec<Segment>>) -> Seq<Seq<(Style, Seq<char>)>> {
    lines.map_values(|l: Vec<Segment>| line_view(l@))
}

fn seg(style: Style, text: &str) -> (r: Segment)
    ensures
        r.style == style,
        r.text@ == text@,
{
    Segment { style, text: to_owned_string(text) }
}

fn seg_owned(style: Style, text: String) -> (r: Segment)
    ensures
        r.style == style,
        r.text@ == text@,
{
    Segment { style, text }
}

/// A name left-aligned in twelve columns (`{:12}`).
pub open spec fn padded12(s: Seq<char>) -> Seq<char> {
    if s.len() < 12 {
        s + Seq::new((12 - s.len()) as nat, |i: int| ' ')
    } else {
        s
    }
}

fn pad12(s: &str) -> (r: String)
    ensures
        r@ == padded12(s@),
{
    let n = chars_of(s).len();
    let mut r = to_owned_string(s);
    let mut k = n;
    while k < 12
        invariant
            n <= k <= 12 || (k == n && n >= 12),
            n == s@.len(),
            r@ == s@ + Seq::new((k - n) as nat, |i: int| ' '),
        decreases 12 - k,
    {
        crate::text::push_char(&mut r, ' ');
        assert(r@ =~= s@ + Seq::new((k + 1 - n) as nat, |i: int| ' '));
        k = k + 1;
    }
    proof {
        if n >= 12 {
            assert(r@ =~= s@);
        }
    }
    r
}

/// Why a category is unavailable, in words.
pub open spec fn reason_text(reason: UnavailableReason) -> Seq<char> {
    match reason {
        UnavailableReason::RequiresFullGraph => "requires full dependency graph"@,
        UnavailableReason::RequiresPackageJson => "requires package.json context"@,
        UnavailableReason::RequiresFrameworkDetection => "no framework detected"@,
        UnavailableReason::RequiresNodeModules => "node_modules not found (run npm install)"@,
    }
}

/// The reason recorded for the first unavailable entry of a category.
pub open spec fn reason_for(unavailable: Seq<UnavailableCategory>, c: Category) -> Option<Seq<char>>
    decreases unavailable.len(),
{
    if unavailable.len() == 0 {
        None
    } else if unavailable[0].category == c {
        Some(reason_text(unavailable[0].reason))
    } else {
        reason_for(unavailable.drop_first(), c)
    }
}

/// The suggestion to run package mode: for files mode with a package.json
/// nearby, how to analyse the package.
pub open spec fn suggestion_line(target: AnalysisTarget) -> Option<Seq<(Style, Seq<char>)>> {
    match target {
        AnalysisTarget::Files(ft) => match ft.nearby_package {
            Some(pkg) => Some(
                seq![
                    (Style::BrightBlue, "To enable all categories, run:"@),
                    (Style::Plain, "\n  "@),
                    (Style::Cyan, "danny "@ + match path_parent_of(pkg@) {
                        Some(dir) => dir,
                        None => pkg@,
                    }),
                ],
            ),
            None => None,
        },
        _ => None,
    }
}

/// The header naming the analysis mode.
pub open spec fn mode_header_view(mode: AnalysisMode) -> (Style, Seq<char>) {
    match mode {
        AnalysisMode::Package => (Style::BrightBlueBold, "📦 Package Mode Analysis"@),
        AnalysisMode::Files => (Style::BrightYellowBold, "📄 File-Level Analysis Mode"@),
    }
}

/// The line of an available category in the category list.
pub open spec fn available_line(c: Category) -> Seq<(Style, Seq<char>)> {
    seq![
        (Style::Plain, "  "@),
        (Style::Green, "✓"@),
        (Style::Plain, " "@),
        (Style::Cyan, padded12(cli_name_of(c))),
        (Style::Plain, " "@),
        (Style::Plain, description_of(c)),
    ]
}

/// The line of an unavailable category in the category list.
pub open spec fn unavailable_line(u: UnavailableCategory) -> Seq<(Style, Seq<char>)> {
    seq![
        (Style::Plain, "  "@),
        (Style::Red, "✗"@),
        (Style::Plain, " "@),
        (Style::BrightBlack, padded12(cli_name_of(u.category))),
        (Style::Plain, " "@),
        (Style::BrightBlack, reason_text(u.reason)),
    ]
}

/// A blank line, then the suggestion, when there is one.
pub open spec fn suggestion_lines(target: AnalysisTarget) -> Seq<Seq<(Style, Seq<char>)>> {
    match suggestion_line(target) {
        Some(l) => seq![Seq::empty(), l],
        None => Seq::empty(),
    }
}

/// The category list: the mode, the available categories with their
/// descriptions, the unavailable ones with their reasons, and the suggestion.
pub open spec fn category_list(target: AnalysisTarget, caps: AnalysisCapabilities) -> Seq<Seq<(Style, Seq<char>)>> {
    seq![seq![mode_header_view(caps.mode_spec())], Seq::empty(), seq![(Style::Bold, "Available categories:"@)]]
        + caps.available_seq().map_values(|c: Category| available_line(c)) + (if caps.unavailable_seq().len() > 0 {
        seq![Seq::empty(), seq![(Style::Bold, "Unavailable categories:"@)]] + caps.unavailable_seq().map_values(
            |u: UnavailableCategory| unavailable_line(u),
        )
    } else {
        Seq::empty()
    }) + suggestion_lines(target)
}

/// The line of an unavailable requested category, when a reason is recorded.
pub open spec fn reason_lines(caps: AnalysisCapabilities, cats: Seq<Category>) -> Seq<Seq<(Style, Seq<char>)>>
    decreases cats.len(),
{
    if cats.len() == 0 {
        Seq::empty()
    } else {
        reason_lines(caps, cats.drop_last()) + match reason_for(caps.unavailable_seq(), cats.last()) {
            Some(r) => seq![seq![(Style::Plain, "  "@), (Style::Red, "✗"@), (Style::Plain, " "@ + cli_name_of(cats.last()) + " - "@ + r)]],
            None => Seq::empty(),
        }
    }
}

/// The warning when only some requested categories are available.
pub open spec fn partial_warning(target: AnalysisTarget, caps: AnalysisCapabilities, available: Seq<Category>, unavailable: Seq<Category>) -> Seq<Seq<(Style, Seq<char>)>> {
    seq![
        Seq::empty(),
        seq![(Style::Yellow, "⚠️ "@), (Style::Plain, " "@), (Style::YellowBold, "Warning: Some categories unavailable"@)],
        Seq::empty(),
        seq![(Style::Bold, "Will analyze:"@)],
    ] + available.map_values(|c: Category| seq![(Style::Plain, "  "@), (Style::Green, "✓"@), (Style::Plain, " "@ + cli_name_of(c))])
        + seq![Seq::empty(), seq![(Style::Bold, "Unavailable:"@)]] + reason_lines(caps, unavailable) + suggestion_lines(target)
        + seq![Seq::empty()]
}

/// The error when none of the requested categories is available.
pub open spec fn none_available(target: AnalysisTarget, caps: AnalysisCapabilities, requested: Seq<Category>) -> Seq<Seq<(Style, Seq<char>)>> {
    seq![
        Seq::empty(),
        seq![(Style::Red, "❌"@), (Style::Plain, " "@), (Style::RedBold, "Error: No requested categories are available"@)],
        Seq::empty(),
        seq![(Style::Bold, "Requested:"@)],
    ] + reason_lines(caps, requested) + suggestion_lines(target) + seq![Seq::empty()]
}

/// The list of the default categories in use.
pub open spec fn defaults_notice(categories: Seq<Category>) -> Seq<Seq<(Style, Seq<char>)>> {
    seq![seq![(Style::BrightBlue, "Using default categories:"@)]] + categories.map_values(
        |c: Category| seq![(Style::Plain, "  "@), (Style::Cyan, "•"@), (Style::Plain, " "@ + cli_name_of(c))],
    ) + seq![Seq::empty()]
}

/// Shows what the current mode can analyse.
pub struct CapabilityDisplay {
    target: AnalysisTarget,
    auto_confirm: bool,
    capabilities: AnalysisCapabilities,
}

fn line_of(segments: Vec<Segment>) -> (r: Vec<Segment>)
    ensures
        r@ == segments@,
{
    segments
}

fn push_line(lines: &mut Vec<Vec<Segment>>, line: Vec<Segment>)
    ensures
        lines_view(final(lines)@) == lines_view(old(lines)@).push(line_view(line@)),
{
    lines.push(line);
    assert(lines_view(lines@) =~= lines_view(old(lines)@).push(line_view(line@)));
}

fn append_lines(lines: &mut Vec<Vec<Segment>>, more: Vec<Vec<Segment>>)
    ensures
        lines_view(final(lines)@) == lines_view(old(lines)@) + lines_view(more@),
{
    let ghost m = more@;
    let mut more = more;
    lines.append(&mut more);
    assert(lines@ =~= old(lines)@ + m);
    assert(lines_view(lines@) =~= lines_view(old(lines)@) + lines_view(m));
}

fn blank() -> (r: Vec<Segment>)
    ensures
        line_view(r@) == Seq::<(Style, Seq<char>)>::empty(),
{
    let r: Vec<Segment> = Vec::new();
    assert(line_view(r@) =~= Seq::<(Style, Seq<char>)>::empty());
    r
}

fn single(style: Style, text: &str) -> (r: Vec<Segment>)
    ensures
        line_view(r@) == seq![(style, text@)],
{
    let mut r: Vec<Segment> = Vec::new();
    r.push(seg(style, text));
    assert(line_view(r@) =~= seq![(style, text@)]);
    r
}

/// A mark, then ` name` (and ` - reason`, when given).
fn marked(style: Style, mark: &str, name: &str, reason: Option<&str>) -> (r: Vec<Segment>)
    ensures
        line_view(r@) == seq![(Style::Plain, "  "@), (style, mark@), (Style::Plain, " "@ + name@ + match reason {
            Some(t) => " - "@ + t@,
            None => ""@,
        })],
{
    let mut tail = to_owned_string(" ");
    push_str(&mut tail, name);
    match reason {
        Some(t) => {
            push_str(&mut tail, " - ");
            push_str(&mut tail, t);
            assert(tail@ =~= " "@ + name@ + (" "@.push('-').push(' ') + t@)) by {
                reveal_strlit(" - ");
                reveal_strlit(" ");
            }
            assert(tail@ =~= " "@ + name@ + (" - "@ + t@)) by {
                reveal_strlit(" - ");
            }
        },
        None => {
            proof {
                reveal_strlit("");
                assert(tail@ =~= " "@ + name@ + ""@);
            }
        },
    }
    let mut r: Vec<Segment> = Vec::new();
    r.push(seg(Style::Plain, "  "));
    r.push(seg(style, mark));
    r.push(seg_owned(Style::Plain, tail));
    assert(line_view(r@) =~= seq![(Style::Plain, "  "@), (style, mark@), (Style::Plain, " "@ + name@ + match reason {
        Some(t) => " - "@ + t@,
        None => ""@,
    })]);
    r
}

/// Why a category is unavailable, in words.
pub fn format_reason(reason: UnavailableReason) -> (r: &'static str)
    ensures
        r@ == reason_text(reason),
{
    match reason {
        UnavailableReason::RequiresFullGraph => "requires full dependency graph",
        UnavailableReason::RequiresPackageJson => "requires package.json context",
        UnavailableReason::RequiresFrameworkDetection => "no framework detected",
        UnavailableReason::RequiresNodeModules => "node_modules not found (run npm install)",
    }
}

/// The answer to "Continue with available categories? [Y/n]" accepts when,
/// trimmed and in lower case, it is empty, "y" or "yes".
pub open spec fn accepts(answer_lower: Seq<char>) -> bool {
    answer_lower.len() == 0 || answer_lower == "y"@ || answer_lower == "yes"@
}

impl CapabilityDisplay {
    /// The target whose categories are shown.
    pub closed spec fn target_spec(&self) -> AnalysisTarget {
        self.target
    }

    /// The capabilities of the target.
    pub closed spec fn caps(&self) -> AnalysisCapabilities {
        self.capabilities
    }

    /// Whether prompts are answered yes without asking.
    pub closed spec fn confirms(&self) -> bool {
        self.auto_confirm
    }

    pub fn new(target: AnalysisTarget, auto_confirm: bool) -> (d: Self)
        ensures
            d.target_spec() == target,
            d.confirms() == auto_confirm,
            d.caps().wf(),
            d.caps().mode_spec() == target.mode_of(),
            d.caps().available_set() == target.capabilities_spec_available(),
            d.caps().unavailable_seq() == match target {
                AnalysisTarget::Package(p) => crate::config::package_unavailable(p.has_node_modules, p.framework is Some),
                AnalysisTarget::Files(_) => crate::capabilities::files_mode_unavailable(),
            },
    {
        let capabilities = target.capabilities();
        CapabilityDisplay { target, auto_confirm, capabilities }
    }

    /// The header naming the analysis mode.
    pub fn mode_header(&self) -> (r: Segment)
        ensures
            (r.style, r.text@) == mode_header_view(self.caps().mode_spec()),
    {
        match self.capabilities.mode() {
            AnalysisMode::Package => seg(Style::BrightBlueBold, "📦 Package Mode Analysis"),
            AnalysisMode::Files => seg(Style::BrightYellowBold, "📄 File-Level Analysis Mode"),
        }
    }

    /// The reason recorded for an unavailable category.
    pub fn get_unavailable_reason(&self, category: Category) -> (r: Option<&'static str>)
        ensures
            match reason_for(self.caps().unavailable_seq(), category) {
                Some(t) => r matches Some(s) && s@ == t,
                None => r is None,
            },
    {
        let u = self.capabilities.unavailable_categories();
        let ghost us = u@;
        let mut i: usize = 0;
        assert(us.skip(0) =~= us);
        while i < u.len()
            invariant
                i <= us.len(),
                us == u@,
                us == self.caps().unavailable_seq(),
                reason_for(us, category) == reason_for(us.skip(i as int), category),
            decreases us.len() - i,
        {
            assert(us.skip(i as int)[0] == us[i as int]);
            assert(us.skip(i as int).drop_first() =~= us.skip(i + 1));
            if u[i].category == category {
                assert(reason_for(us.skip(i as int), category) == Some(reason_text(us[i as int].reason)));
                return Some(format_reason(u[i].reason));
            }
            i = i + 1;
        }
        None
    }

    /// The suggestion to analyse the whole package, for files mode with a
    /// package.json nearby.
    pub fn get_package_suggestion(&self) -> (r: Option<Vec<Segment>>)
        ensures
            match suggestion_line(self.target_spec()) {
                Some(l) => r matches Some(v) && line_view(v@) == l,
                None => r is None,
            },
    {
        match &self.target {
            AnalysisTarget::Files(ft) => match ft.suggest_package_mode() {
                Some(sug) => {
                    let mut v: Vec<Segment> = Vec::new();
                    v.push(seg(Style::BrightBlue, "To enable all categories, run:"));
                    v.push(seg(Style::Plain, "\n  "));
                    v.push(seg_owned(Style::Cyan, sug.command));
                    proof {
                        let pkg = ft.nearby_package.unwrap();
                        assert(line_view(v@) =~= seq![
                            (Style::BrightBlue, "To enable all categories, run:"@),
                            (Style::Plain, "\n  "@),
                            (Style::Cyan, "danny "@ + match path_parent_of(pkg@) {
                                Some(dir) => dir,
                                None => pkg@,
                            }),
                        ]);
                    }
                    Some(v)
                },
                None => None,
            },
            _ => None,
        }
    }

    fn suggestion(&self) -> (r: Vec<Vec<Segment>>)
        ensures
            lines_view(r@) == suggestion_lines(self.target_spec()),
    {
        let mut lines: Vec<Vec<Segment>> = Vec::new();
        match self.get_package_suggestion() {
            Some(s) => {
                push_line(&mut lines, blank());
                push_line(&mut lines, s);
                assert(lines_view(lines@) =~= suggestion_lines(self.target_spec()));
            },
            None => {
                assert(lines_view(lines@) =~= Seq::<Seq<(Style, Seq<char>)>>::empty());
            },
        }
        lines
    }

    /// The category list of the current mode.
    pub fn display_list_categories(&self) -> (r: Vec<Vec<Segment>>)
        requires
            self.caps().wf(),
        ensures
            lines_view(r@) == category_list(self.target_spec(), self.caps()),
    {
        let mut lines: Vec<Vec<Segment>> = Vec::new();
        let h = self.mode_header();
        let mut hl: Vec<Segment> = Vec::new();
        hl.push(h);
        assert(line_view(hl@) =~= seq![mode_header_view(self.caps().mode_spec())]);
        push_line(&mut lines, hl);
        push_line(&mut lines, blank());
        push_line(&mut lines, single(Style::Bold, "Available categories:"));
        let ghost head = lines_view(lines@);
        let avail = self.capabilities.available_categories();
        let mut i: usize = 0;
        while i < avail.len()
            invariant
                i <= avail@.len(),
                avail@ == self.caps().available_seq(),
                lines_view(lines@) == head + avail@.take(i as int).map_values(|c: Category| available_line(c)),
            decreases avail@.len() - i,
        {
            let c = avail[i];
            let mut l: Vec<Segment> = Vec::new();
            l.push(seg(Style::Plain, "  "));
            l.push(seg(Style::Green, "✓"));
            l.push(seg(Style::Plain, " "));
            l.push(seg_owned(Style::Cyan, pad12(c.cli_name())));
            l.push(seg(Style::Plain, " "));
            l.push(seg(Style::Plain, c.description()));
            assert(line_view(l@) =~= available_line(c));
            push_line(&mut lines, l);
            assert(avail@.take(i + 1) =~= avail@.take(i as int).push(c));
            i = i + 1;
        }
        assert(avail@.take(avail@.len() as int) =~= avail@);
        let ghost mid = lines_view(lines@);
        let un = self.capabilities.unavailable_categories();
        if un.len() > 0 {
            push_line(&mut lines, blank());
            push_line(&mut lines, single(Style::Bold, "Unavailable categories:"));
            let ghost mid2 = lines_view(lines@);
            let mut j: usize = 0;
            while j < un.len()
                invariant
                    j <= un@.len(),
                    un@ == self.caps().unavailable_seq(),
                    lines_view(lines@) == mid2 + un@.take(j as int).map_values(|u: UnavailableCategory| unavailable_line(u)),
                decreases un@.len() - j,
            {
                let u = un[j];
                let mut l: Vec<Segment> = Vec::new();
                l.push(seg(Style::Plain, "  "));
                l.push(seg(Style::Red, "✗"));
                l.push(seg(Style::Plain, " "));
                l.push(seg_owned(Style::BrightBlack, pad12(u.category.cli_name())));
                l.push(seg(Style::Plain, " "));
                l.push(seg(Style::BrightBlack, format_reason(u.reason)));
                assert(line_view(l@) =~= unavailable_line(u));
                push_line(&mut lines, l);
                assert(un@.take(j + 1) =~= un@.take(j as int).push(u));
                j = j + 1;
            }
            assert(un@.take(un@.len() as int) =~= un@);
        }
        let ghost before_sug = lines_view(lines@);
        append_lines(&mut lines, self.suggestion());
        lines
    }

    fn reason_lines_of(&self, cats: &[Category]) -> (r: Vec<Vec<Segment>>)
        ensures
            lines_view(r@) == reason_lines(self.caps(), cats@),
    {
        let mut lines: Vec<Vec<Segment>> = Vec::new();
        let mut i: usize = 0;
        while i < cats.len()
            invariant
                i <= cats@.len(),
                lines_view(lines@) == reason_lines(self.caps(), cats@.take(i as int)),
            decreases cats@.len() - i,
        {
            let c = cats[i];
            assert(cats@.take(i + 1).drop_last() =~= cats@.take(i as int));
            assert(cats@.take(i + 1).last() == c);
            match self.get_unavailable_reason(c) {
                Some(reason) => {
                    let l = marked(Style::Red, "✗", c.cli_name(), Some(reason));
                    assert(" "@ + cli_name_of(c) + (" - "@ + reason@) =~= " "@ + cli_name_of(c) + " - "@ + reason@);
                    assert(line_view(l@) =~= seq![(Style::Plain, "  "@), (Style::Red, "✗"@), (Style::Plain, " "@ + cli_name_of(c) + " - "@ + reason@)]);
                    push_line(&mut lines, l);
                },
                None => {},
            }
            i = i + 1;
        }
        assert(cats@.take(cats@.len() as int) =~= cats@);
        lines
    }

    /// The warning when only some requested categories are available.
    pub fn show_partial_warning(&self, available: &[Category], unavailable: &[Category]) -> (r: Vec<Vec<Segment>>)
        ensures
            lines_view(r@) == partial_warning(self.target_spec(), self.caps(), available@, unavailable@),
    {
        let mut lines: Vec<Vec<Segment>> = Vec::new();
        push_line(&mut lines, blank());
        let mut w: Vec<Segment> = Vec::new();
        w.push(seg(Style::Yellow, "⚠️ "));
        w.push(seg(Style::Plain, " "));
        w.push(seg(Style::YellowBold, "Warning: Some categories unavailable"));
        assert(line_view(w@) =~= seq![(Style::Yellow, "⚠️ "@), (Style::Plain, " "@), (Style::YellowBold, "Warning: Some categories unavailable"@)]);
        push_line(&mut lines, w);
        push_line(&mut lines, blank());
        push_line(&mut lines, single(Style::Bold, "Will analyze:"));
        let ghost head = lines_view(lines@);
        let mut i: usize = 0;
        while i < available.len()
            invariant
                i <= available@.len(),
                lines_view(lines@) == head + available@.take(i as int).map_values(
                    |c: Category| seq![(Style::Plain, "  "@), (Style::Green, "✓"@), (Style::Plain, " "@ + cli_name_of(c))],
                ),
            decreases available@.len() - i,
        {
            let c = available[i];
            let l = marked(Style::Green, "✓", c.cli_name(), None);
            proof {
                reveal_strlit("");
                assert(" "@ + cli_name_of(c) + ""@ =~= " "@ + cli_name_of(c));
                assert(line_view(l@) =~= seq![(Style::Plain, "  "@), (Style::Green, "✓"@), (Style::Plain, " "@ + cli_name_of(c))]);
            }
            push_line(&mut lines, l);
            assert(available@.take(i + 1) =~= available@.take(i as int).push(c));
            i = i + 1;
        }
        assert(available@.take(available@.len() as int) =~= available@);
        push_line(&mut lines, blank());
        push_line(&mut lines, single(Style::Bold, "Unavailable:"));
        append_lines(&mut lines, self.reason_lines_of(unavailable));
        append_lines(&mut lines, self.suggestion());
        push_line(&mut lines, blank());
        lines
    }

    /// The error when none of the requested categories is available.
    pub fn show_none_available(&self, requested: &[Category], _unavailable: &[Category]) -> (r: Vec<Vec<Segment>>)
        ensures
            lines_view(r@) == none_available(self.target_spec(), self.caps(), requested@),
    {
        let mut lines: Vec<Vec<Segment>> = Vec::new();
        push_line(&mut lines, blank());
        let mut w: Vec<Segment> = Vec::new();
        w.push(seg(Style::Red, "❌"));
        w.push(seg(Style::Plain, " "));
        w.push(seg(Style::RedBold, "Error: No requested categories are available"));
        assert(line_view(w@) =~= seq![(Style::Red, "❌"@), (Style::Plain, " "@), (Style::RedBold, "Error: No requested categories are available"@)]);
        push_line(&mut lines, w);
        push_line(&mut lines, blank());
        push_line(&mut lines, single(Style::Bold, "Requested:"));
        append_lines(&mut lines, self.reason_lines_of(requested));
        append_lines(&mut lines, self.suggestion());
        push_line(&mut lines, blank());
        lines
    }

    /// The list of the default categories in use.
    pub fn show_using_defaults(&self, categories: &[Category]) -> (r: Vec<Vec<Segment>>)
        ensures
            lines_view(r@) == defaults_notice(categories@),
    {
        let mut lines: Vec<Vec<Segment>> = Vec::new();
        push_line(&mut lines, single(Style::BrightBlue, "Using default categories:"));
        let ghost head = lines_view(lines@);
        let mut i: usize = 0;
        while i < categories.len()
            invariant
                i <= categories@.len(),
                lines_view(lines@) == head + categories@.take(i as int).map_values(
                    |c: Category| seq![(Style::Plain, "  "@), (Style::Cyan, "•"@), (Style::Plain, " "@ + cli_name_of(c))],
                ),
            decreases categories@.len() - i,
        {
            let c = categories[i];
            let l = marked(Style::Cyan, "•", c.cli_name(), None);
            proof {
                reveal_strlit("");
                assert(" "@ + cli_name_of(c) + ""@ =~= " "@ + cli_name_of(c));
                assert(line_view(l@) =~= seq![(Style::Plain, "  "@), (Style::Cyan, "•"@), (Style::Plain, " "@ + cli_name_of(c))]);
            }
            push_line(&mut lines, l);
            assert(categories@.take(i + 1) =~= categories@.take(i as int).push(c));
            i = i + 1;
        }
        assert(categories@.take(categories@.len() as int) =~= categories@);
        push_line(&mut lines, blank());
        lines
    }

    /// Whether the prompt is skipped and answered yes.
    pub fn auto_confirms(&self) -> (r: bool)
        ensures
            r == self.confirms(),
    {
        self.auto_confirm
    }
}

} // verus!
