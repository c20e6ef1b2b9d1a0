//! One logical line of text, addressed by grapheme cluster.

use crate::grapheme::{clamp_index, count, grapheme_boundary, grapheme_clusters, grapheme_count, graphemes};
use crate::text::{join, lemma_flatten_split};
use vstd::seq_lib::lemma_flatten_concat;
use vstd::prelude::*;
use vstd::string::*;

verus! {

/// A line of text without its terminator. Its length and all indices into it
/// count extended grapheme clusters, not bytes and not characters.
pub struct Row {
    string: String,
}

impl View for Row {
    type V = Seq<char>;

    closed spec fn view(&self) -> Seq<char> {
        self.string@
    }
}

/// `text` with `c` spliced in where cluster number `at` begins.
pub open spec fn inserted(text: Seq<char>, at: int, c: char) -> Seq<char> {
    text.insert(grapheme_boundary(text, at), c)
}

/// `text` without cluster number `at`; `text` itself when there is no such
/// cluster.
pub open spec fn deleted(text: Seq<char>, at: int) -> Seq<char> {
    if 0 <= at < grapheme_count(text) {
        text.take(grapheme_boundary(text, at)) + text.skip(grapheme_boundary(text, at + 1))
    } else {
        text
    }
}

/// The clusters of `text` before cluster number `at`.
pub open spec fn head(text: Seq<char>, at: int) -> Seq<char> {
    text.take(grapheme_boundary(text, at))
}

/// The clusters of `text` from cluster number `at` on.
pub open spec fn tail(text: Seq<char>, at: int) -> Seq<char> {
    text.skip(grapheme_boundary(text, at))
}

/// What one cluster looks like on screen: a tab becomes two spaces, anything
/// else is shown as it is.
pub open spec fn displayed(cluster: Seq<char>) -> Seq<char> {
    if cluster == seq!['\t'] {
        seq![' ', ' ']
    } else {
        cluster
    }
}

/// The clusters `start..end` of `text`, after `end` is brought down to the
/// number of clusters and `start` down to `end`.
pub open spec fn cluster_range(text: Seq<char>, start: int, end: int) -> Seq<Seq<char>> {
    let clusters = grapheme_clusters(text);
    let end = clamp_index(end, clusters.len());
    let start = clamp_index(start, end as nat);
    clusters.subrange(start, end)
}

/// What a run of clusters looks like on screen.
pub open spec fn displayed_run(clusters: Seq<Seq<char>>) -> Seq<char> {
    clusters.map_values(|cluster: Seq<char>| displayed(cluster)).flatten()
}

/// The text drawn for clusters `start..end` of `text`.
pub open spec fn rendered(text: Seq<char>, start: int, end: int) -> Seq<char> {
    displayed_run(cluster_range(text, start, end))
}

/// An end at or past the number of clusters renders as any other such end.
pub(crate) proof fn lemma_rendered_end(text: Seq<char>, start: int, end: int, other: int)
    requires
        end >= grapheme_count(text) || end == other,
        other >= grapheme_count(text) || end == other,
    ensures
        rendered(text, start, end) == rendered(text, start, other),
{
}

proof fn lemma_displayed_run_push(clusters: Seq<Seq<char>>, cluster: Seq<char>)
    ensures
        displayed_run(clusters.push(cluster)) == displayed_run(clusters) + displayed(cluster),
{
    let shown = clusters.map_values(|cluster: Seq<char>| displayed(cluster));
    assert(clusters.push(cluster).map_values(|cluster: Seq<char>| displayed(cluster)) =~= shown.push(
        displayed(cluster),
    ));
    shown.lemma_flatten_push(displayed(cluster));
}

/// How many columns of the screen a cluster fills: a tab two, any other
/// cluster one.
pub open spec fn width(cluster: Seq<char>) -> nat {
    if cluster == seq!['\t'] {
        2
    } else {
        1
    }
}

/// How many columns a run of clusters fills.
pub open spec fn columns(clusters: Seq<Seq<char>>) -> nat
    decreases clusters.len(),
{
    if clusters.len() == 0 {
        0
    } else {
        columns(clusters.drop_last()) + width(clusters.last())
    }
}

/// What a cluster puts into the columns it fills: a tab a space into each of
/// its two, any other cluster itself into its one.
pub open spec fn cells_of(cluster: Seq<char>) -> Seq<Seq<char>> {
    if cluster == seq!['\t'] {
        seq![seq![' '], seq![' ']]
    } else {
        seq![cluster]
    }
}

/// The columns that a run of clusters fills, each with what is drawn in it.
pub open spec fn cells(clusters: Seq<Seq<char>>) -> Seq<Seq<char>> {
    clusters.map_values(|cluster: Seq<char>| cells_of(cluster)).flatten()
}

proof fn lemma_cells(clusters: Seq<Seq<char>>)
    ensures
        displayed_run(clusters) == cells(clusters).flatten(),
        cells(clusters).len() == columns(clusters),
    decreases clusters.len(),
{
    if clusters.len() == 0 {
        assert(clusters.map_values(|cluster: Seq<char>| cells_of(cluster)) =~= Seq::empty());
        assert(clusters.map_values(|cluster: Seq<char>| displayed(cluster)) =~= Seq::empty());
    } else {
        let init = clusters.drop_last();
        let last = clusters.last();
        lemma_cells(init);
        assert(init.push(last) =~= clusters);
        lemma_displayed_run_push(init, last);
        let mapped = init.map_values(|cluster: Seq<char>| cells_of(cluster));
        assert(clusters.map_values(|cluster: Seq<char>| cells_of(cluster)) =~= mapped.push(
            cells_of(last),
        ));
        mapped.lemma_flatten_push(cells_of(last));
        assert(cells(clusters) == cells(init) + cells_of(last));
        lemma_flatten_concat(cells(init), cells_of(last));
        if last == seq!['\t'] {
            let two = seq![seq![' '], seq![' ']];
            assert(two.drop_first() =~= seq![seq![' ']]);
            assert(seq![seq![' ']].drop_first() =~= Seq::<Seq<char>>::empty());
            assert(two.flatten() =~= seq![' ', ' ']) by {
                reveal_with_fuel(Seq::flatten, 3);
            }
        } else {
            seq![last].lemma_flatten_singleton();
        }
    }
}

/// What `render` draws fills as many columns as the clusters it shows are
/// wide, a tab counting as two and every other cluster as one: the text is
/// the columns' contents in a row, and there is one column for each unit of
/// width.
pub proof fn lemma_render_width(text: Seq<char>, start: int, end: int)
    ensures
        rendered(text, start, end) == cells(cluster_range(text, start, end)).flatten(),
        cells(cluster_range(text, start, end)).len() == columns(
            cluster_range(text, start, end),
        ),
{
    lemma_cells(cluster_range(text, start, end));
}

fn is_tab(cluster: &str) -> (tab: bool)
    ensures
        tab == (cluster@ == seq!['\t']),
{
    if cluster.unicode_len() == 1 {
        let c = cluster.get_char(0);
        assert(cluster@ =~= seq![c]);
        c == '\t'
    } else {
        false
    }
}

proof fn lemma_boundary(parts: Seq<Seq<char>>, text: Seq<char>, k: int)
    requires
        parts == grapheme_clusters(text),
        parts.flatten() == text,
        0 <= k <= parts.len(),
    ensures
        grapheme_boundary(text, k) == parts.take(k).flatten().len(),
        parts.take(k).flatten() == text.take(grapheme_boundary(text, k)),
        parts.skip(k).flatten() == text.skip(grapheme_boundary(text, k)),
        0 <= grapheme_boundary(text, k) <= text.len(),
{
    lemma_flatten_split(parts, k);
}

impl Default for Row {
    /// The empty row.
    fn default() -> (row: Row)
        ensures
            row@ == Seq::<char>::empty(),
    {
        Row { string: String::new() }
    }
}

impl Row {
    /// A row holding `s`.
    pub fn from(s: &str) -> (row: Row)
        ensures
            row@ == s@,
    {
        Row { string: s.to_owned() }
    }

    /// Number of grapheme clusters in the row.
    pub fn len(&self) -> (n: usize)
        ensures
            n == grapheme_count(self@),
    {
        count(self.string.as_str())
    }

    /// Whether the row holds no text at all.
    pub fn is_empty(&self) -> (empty: bool)
        ensures
            empty == (self@.len() == 0),
    {
        self.string.as_str().is_empty()
    }

    /// The row's text.
    pub fn as_str(&self) -> (text: &str)
        ensures
            text@ == self@,
    {
        self.string.as_str()
    }

    /// The row's text as UTF-8 bytes.
    pub fn as_bytes(&self) -> (bytes: &[u8])
        ensures
            bytes@ == vstd::utf8::encode_utf8(self@),
    {
        self.string.as_str().as_bytes()
    }

    /// The text to draw for clusters `start..end` of the row: each tab is
    /// widened to two spaces, every other cluster is drawn as it is. `end` is
    /// brought down to the row's length and `start` down to `end`.
    pub fn render(&self, start: usize, end: usize) -> (line: String)
        ensures
            line@ == rendered(self@, start as int, end as int),
            grapheme_count(self@) <= usize::MAX,
    {
        let parts = graphemes(self.string.as_str());
        let end = if end < parts.len() { end } else { parts.len() };
        let start = if start < end { start } else { end };
        let mut line = String::new();
        let mut i: usize = start;
        assert(parts.deep_view().subrange(start as int, start as int) =~= Seq::<Seq<char>>::empty());
        while i < end
            invariant
                start <= i <= end <= parts.len(),
                line@ == displayed_run(parts.deep_view().subrange(start as int, i as int)),
            decreases end - i,
        {
            let part = parts[i].as_str();
            proof {
                let done = parts.deep_view().subrange(start as int, i as int);
                assert(parts.deep_view().subrange(start as int, i + 1) =~= done.push(part@));
                lemma_displayed_run_push(done, part@);
                reveal_strlit("  ");
                assert("  "@ =~= seq![' ', ' ']);
            }
            if is_tab(part) {
                line.append("  ");
            } else {
                line.append(part);
            }
            i += 1;
        }
        line
    }

    /// Appends the text of `other` to this row.
    pub fn append(&mut self, other: &Row)
        ensures
            final(self)@ == old(self)@ + other@,
    {
        self.string.append(other.string.as_str());
    }

    /// Splices `c` in before cluster number `at`, or at the end of the row
    /// when `at` is the row's length or more.
    pub fn insert(&mut self, at: usize, c: char)
        ensures
            final(self)@ == inserted(old(self)@, at as int, c),
            final(self)@ == cluster_range(old(self)@, 0, at as int).flatten() + seq![c]
                + cluster_range(old(self)@, at as int, grapheme_count(old(self)@) as int).flatten(),
    {
        let parts = graphemes(self.string.as_str());
        let n = parts.len();
        let k = if at < n { at } else { n };
        proof {
            lemma_boundary(parts.deep_view(), self@, k as int);
        }
        let mut text = join(&parts, 0, k);
        text.push(c);
        let rest = join(&parts, k, n);
        text.append(rest.as_str());
        proof {
            let d = parts.deep_view();
            assert(d.subrange(0, k as int) =~= d.take(k as int));
            assert(d.subrange(k as int, n as int) =~= d.skip(k as int));
            let b = grapheme_boundary(self@, at as int);
            assert(text@ =~= self@.insert(b, c));
        }
        self.string = text;
    }

    /// Removes cluster number `at`. Does nothing when `at` is the row's
    /// length or more.
    pub fn delete(&mut self, at: usize)
        ensures
            final(self)@ == deleted(old(self)@, at as int),
            at < grapheme_count(old(self)@) ==> final(self)@ == cluster_range(
                old(self)@,
                0,
                at as int,
            ).flatten() + cluster_range(
                old(self)@,
                at + 1,
                grapheme_count(old(self)@) as int,
            ).flatten(),
    {
        let parts = graphemes(self.string.as_str());
        let n = parts.len();
        if at >= n {
            return ;
        }
        proof {
            lemma_boundary(parts.deep_view(), self@, at as int);
            lemma_boundary(parts.deep_view(), self@, at + 1);
            let d = parts.deep_view();
            assert(d.subrange(0, at as int) =~= d.take(at as int));
            assert(d.subrange(at + 1, n as int) =~= d.skip(at + 1));
        }
        let mut text = join(&parts, 0, at);
        let rest = join(&parts, at + 1, n);
        text.append(rest.as_str());
        self.string = text;
    }

    /// Cuts the row before cluster number `at`: the row keeps what comes
    /// before, and what comes after is returned as a new row.
    pub fn split(&mut self, at: usize) -> (rest: Row)
        ensures
            final(self)@ == head(old(self)@, at as int),
            rest@ == tail(old(self)@, at as int),
            final(self)@ == cluster_range(old(self)@, 0, at as int).flatten(),
            rest@ == cluster_range(
                old(self)@,
                at as int,
                grapheme_count(old(self)@) as int,
            ).flatten(),
            final(self)@ + rest@ == old(self)@,
    {
        let parts = graphemes(self.string.as_str());
        let n = parts.len();
        let k = if at < n { at } else { n };
        proof {
            lemma_boundary(parts.deep_view(), self@, k as int);
            let d = parts.deep_view();
            assert(d.subrange(0, k as int) =~= d.take(k as int));
            assert(d.subrange(k as int, n as int) =~= d.skip(k as int));
        }
        let beginning = join(&parts, 0, k);
        let remainder = join(&parts, k, n);
        self.string = beginning;
        Row { string: remainder }
    }
}

} // verus!
