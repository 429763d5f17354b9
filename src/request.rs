use vstd::prelude::*;
use crate::text::chars_of;

verus! {

/// Which links of the citation graph a search follows.
#[derive(Debug, Clone, Copy, PartialEq, Eq, Structural)]
pub enum SearchFor {
    References,
    Citations,
    Both,
}

/// The direction a form label names; any other label means both.
pub open spec fn direction_named(label: Seq<char>) -> SearchFor {
    if label == "References"@ {
        SearchFor::References
    } else if label == "Citations"@ {
        SearchFor::Citations
    } else {
        SearchFor::Both
    }
}

/// The pieces of `s` between single spaces, as `str::split(' ')` gives
/// them: consecutive spaces give empty pieces, and the empty text gives one
/// empty piece.
pub open spec fn pieces(s: Seq<char>) -> Seq<Seq<char>>
    decreases s.len(),
{
    if s.len() == 0 {
        seq![Seq::empty()]
    } else {
        let p = pieces(s.drop_last());
        if s.last() == ' ' {
            p.push(Seq::empty())
        } else {
            p.update(p.len() - 1, p.last().push(s.last()))
        }
    }
}

/// Whether `char::is_whitespace` holds of `c` (Unicode `White_Space`).
pub uninterp spec fn whitespace(c: char) -> bool;

/// Relies on `char::is_whitespace`: whether the character has the Unicode
/// `White_Space` property.
#[verifier::external_body]
fn is_whitespace(c: char) -> (r: bool)
    ensures
        r == whitespace(c),
{
    c.is_whitespace()
}

/// `s` without its leading whitespace.
pub open spec fn strip_front(s: Seq<char>) -> Seq<char>
    decreases s.len(),
{
    if s.len() > 0 && whitespace(s[0]) {
        strip_front(s.drop_first())
    } else {
        s
    }
}

/// `s` without its trailing whitespace.
pub open spec fn strip_back(s: Seq<char>) -> Seq<char>
    decreases s.len(),
{
    if s.len() > 0 && whitespace(s.last()) {
        strip_back(s.drop_last())
    } else {
        s
    }
}

/// `s` without its leading and trailing whitespace.
pub open spec fn trimmed(s: Seq<char>) -> Seq<char> {
    strip_back(strip_front(s))
}

/// The text without its leading and trailing whitespace.
pub fn trim_text(s: &str) -> (r: &str)
    ensures
        r@ == trimmed(s@),
{
    let cs = chars_of(s);
    let n = cs.len();
    let mut i: usize = 0;
    assert(s@.subrange(0, n as int) =~= s@);
    while i < n && is_whitespace(cs[i])
        invariant
            cs@ == s@,
            n == s@.len(),
            i <= n,
            strip_front(s@) == strip_front(s@.subrange(i as int, n as int)),
        decreases n - i,
    {
        assert(s@.subrange(i as int, n as int).drop_first() =~= s@.subrange(i + 1, n as int));
        i = i + 1;
    }
    let mut j: usize = n;
    proof {
        if i == n {
            assert(s@.subrange(i as int, n as int) =~= Seq::<char>::empty());
        }
        assert(strip_front(s@) == s@.subrange(i as int, n as int));
    }
    while j > i && is_whitespace(cs[j - 1])
        invariant
            cs@ == s@,
            n == s@.len(),
            i <= j <= n,
            strip_front(s@) == s@.subrange(i as int, n as int),
            strip_back(s@.subrange(i as int, n as int)) == strip_back(s@.subrange(i as int, j as int)),
        decreases j - i,
    {
        assert(s@.subrange(i as int, j as int).drop_last() =~= s@.subrange(i as int, j - 1));
        j = j - 1;
    }
    s.substring_char(i, j)
}

proof fn lemma_pieces_nonempty(s: Seq<char>)
    ensures
        pieces(s).len() >= 1,
    decreases s.len(),
{
    if s.len() > 0 {
        lemma_pieces_nonempty(s.drop_last());
    }
}

/// The pieces of `text` between single spaces.
pub fn split_on_spaces(text: &str) -> (r: Vec<String>)
    ensures
        r@.map_values(|p: String| p@) == pieces(text@),
{
    let cs = chars_of(text);
    let mut out: Vec<String> = Vec::new();
    let mut start: usize = 0;
    let mut i: usize = 0;
    assert(text@.subrange(0, 0) =~= Seq::<char>::empty());
    assert(out@.map_values(|p: String| p@).push(text@.subrange(0, 0)) =~= pieces(text@.subrange(0, 0)));
    while i < cs.len()
        invariant
            cs@ == text@,
            start <= i <= cs@.len(),
            out@.map_values(|p: String| p@).push(text@.subrange(start as int, i as int)) == pieces(
                text@.subrange(0, i as int),
            ),
        decreases cs@.len() - i,
    {
        let ghost before = out@.map_values(|p: String| p@);
        proof {
            let s = text@.subrange(0, i + 1);
            assert(s.drop_last() =~= text@.subrange(0, i as int));
            lemma_pieces_nonempty(s.drop_last());
        }
        if cs[i] == ' ' {
            let ghost old_start = start;
            let piece = text.substring_char(start, i).to_owned();
            out.push(piece);
            start = i + 1;
            proof {
                assert(out@.map_values(|p: String| p@) =~= before.push(text@.subrange(old_start as int, i as int)));
                assert(text@.subrange(0, i + 1).last() == ' ');
                assert(text@.subrange(start as int, i + 1) =~= Seq::<char>::empty());
                assert(out@.map_values(|p: String| p@).push(text@.subrange(start as int, i + 1)) =~= pieces(
                    text@.subrange(0, i + 1),
                ));
            }
        } else {
            proof {
                assert(text@.subrange(start as int, i + 1) =~= text@.subrange(start as int, i as int).push(text@[i as int]));
                assert(out@.map_values(|p: String| p@).push(text@.subrange(start as int, i + 1)) =~= pieces(
                    text@.subrange(0, i + 1),
                ));
            }
        }
        i = i + 1;
    }
    let last = text.substring_char(start, cs.len()).to_owned();
    out.push(last);
    proof {
        assert(text@.subrange(0, text@.len() as int) =~= text@);
        assert(out@.map_values(|p: String| p@) =~= pieces(text@));
    }
    out
}

/// The identifiers typed in the form: the text, trimmed, split at each space.
pub fn split_ids(text: &str) -> (r: Vec<String>)
    ensures
        r@.map_values(|p: String| p@) == pieces(trimmed(text@)),
{
    split_on_spaces(trim_text(text))
}

impl SearchFor {
    /// The direction a form label names; any other label means both.
    pub fn from_label(label: &str) -> (r: SearchFor)
        ensures
            r == direction_named(label@),
    {
        let l = chars_of(label);
        if crate::text::same_chars(&l, &chars_of("References")) {
            SearchFor::References
        } else if crate::text::same_chars(&l, &chars_of("Citations")) {
            SearchFor::Citations
        } else {
            SearchFor::Both
        }
    }
}

impl Default for SearchFor {
    fn default() -> (r: SearchFor)
        ensures
            r == SearchFor::Both,
    {
        SearchFor::Both
    }
}

/// What a search asks the remote service for.
#[derive(Debug, PartialEq)]
pub struct SnowballParameters {
    pub output_max_size: usize,
    pub depth: u8,
    pub input_id_list: Vec<String>,
    pub search_for: SearchFor,
}

impl SnowballParameters {
    /// The parameters of a submitted form: the id list text is trimmed and
    /// split at spaces, the direction label read as `SearchFor::from_label`.
    pub fn from_form(id_list: &str, depth: u8, output_max_size: usize, direction: &str) -> (r: SnowballParameters)
        ensures
            r.input_id_list@.map_values(|p: String| p@) == pieces(trimmed(id_list@)),
            r.depth == depth,
            r.output_max_size == output_max_size,
            r.search_for == direction_named(direction@),
    {
        SnowballParameters {
            output_max_size,
            depth,
            input_id_list: split_ids(id_list),
            search_for: SearchFor::from_label(direction),
        }
    }
}

} // verus!
