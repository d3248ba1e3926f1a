//! A help bar of key hints, like an editor's command line.

use vstd::prelude::*;
use crate::text::concat;
use crate::tui::{Span, Style};

verus! {

/// One key hint: the key and what it does.
pub struct Keybind {
    pub key: String,
    pub desc: String,
}

impl Keybind {
    /// A hint that `key` does `desc`.
    pub fn new(key: &str, desc: &str) -> (k: Keybind)
        ensures
            k.key@ == key@,
            k.desc@ == desc@,
    {
        Keybind { key: key.to_owned(), desc: desc.to_owned() }
    }
}

/// A bar of key hints with a separator after each.
pub struct HelpBar {
    pub binds: Vec<Keybind>,
    pub separator: String,
}

/// The spans drawn for the hints from the first on: for each, the key and
/// the description each between spaces, then the separator.
pub open spec fn help_spans(binds: Seq<Keybind>, sep: Seq<char>, key: Style, desc: Style, sep_style: Style) -> Seq<
    (Seq<char>, Style),
>
    decreases binds.len(),
{
    if binds.len() == 0 {
        seq![]
    } else {
        let b = binds.last();
        help_spans(binds.drop_last(), sep, key, desc, sep_style) + seq![
            (seq![' '] + b.key@ + seq![' '], key),
            (seq![' '] + b.desc@ + seq![' '], desc),
            (sep, sep_style),
        ]
    }
}

/// The text and style of each span.
pub open spec fn span_views(s: Seq<Span>) -> Seq<(Seq<char>, Style)> {
    s.map_values(|sp: Span| (sp.content@, sp.style))
}

fn padded(s: &str) -> (r: String)
    ensures
        r@ == seq![' '] + s@ + seq![' '],
{
    proof {
        reveal_strlit(" ");
    }
    let a = concat(" ", s);
    concat(a.as_str(), " ")
}

impl HelpBar {
    /// A bar of `binds` separated by two spaces.
    pub fn new(binds: Vec<Keybind>) -> (h: HelpBar)
        ensures
            h.binds@ == binds@,
            h.separator@ == seq![' ', ' '],
    {
        proof {
            reveal_strlit("  ");
        }
        HelpBar { binds, separator: "  ".to_owned() }
    }

    /// This bar with another separator.
    pub fn with_separator(self, sep: &str) -> (h: HelpBar)
        ensures
            h.binds == self.binds,
            h.separator@ == sep@,
    {
        HelpBar { separator: sep.to_owned(), ..self }
    }

    /// The spans drawn for the bar (see [`help_spans`]), keys in `key`,
    /// descriptions in `desc`, separators in `sep`.
    pub fn spans(&self, key: Style, desc: Style, sep: Style) -> (out: Vec<Span>)
        ensures
            span_views(out@) == help_spans(self.binds@, self.separator@, key, desc, sep),
    {
        let mut out: Vec<Span> = Vec::new();
        let mut i: usize = 0;
        while i < self.binds.len()
            invariant
                i <= self.binds@.len(),
                span_views(out@) == help_spans(self.binds@.take(i as int), self.separator@, key, desc, sep),
            decreases self.binds@.len() - i,
        {
            let b = &self.binds[i];
            let ghost prev = out@;
            let k = Span::styled(padded(b.key.as_str()), key);
            let d = Span::styled(padded(b.desc.as_str()), desc);
            let s = Span::styled(self.separator.clone(), sep);
            out.push(k);
            out.push(d);
            out.push(s);
            proof {
                assert(self.binds@.take(i + 1).drop_last() =~= self.binds@.take(i as int));
                assert(span_views(out@) =~= span_views(prev) + seq![
                    (seq![' '] + b.key@ + seq![' '], key),
                    (seq![' '] + b.desc@ + seq![' '], desc),
                    (self.separator@, sep),
                ]);
            }
            i = i + 1;
        }
        assert(self.binds@.take(self.binds@.len() as int) =~= self.binds@);
        out
    }
}

} // verus!
