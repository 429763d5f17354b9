use vstd::prelude::*;
use crate::article::Article;
use crate::text::{chars_of, same_chars};

verus! {

/// The identifiers the user has marked, kept apart from filtering, sorting
/// and paging.
#[derive(Debug)]
pub struct SelectionSet {
    ids: Vec<String>,
}

/// Whether `a` carries an identifier that `selected` holds.
pub open spec fn is_marked(selected: Set<Seq<char>>, a: Article) -> bool {
    a.doi is Some && selected.contains(a.doi->0@)
}

/// The selection after marking (`selected`) or unmarking `id`.
pub open spec fn toggled(s: Set<Seq<char>>, id: Seq<char>, selected: bool) -> Set<Seq<char>> {
    if selected {
        s.insert(id)
    } else {
        s.remove(id)
    }
}

impl View for SelectionSet {
    type V = Set<Seq<char>>;

    closed spec fn view(&self) -> Set<Seq<char>> {
        Set::new(|x: Seq<char>| exists|k: int| 0 <= k < self.ids@.len() && #[trigger] self.ids@[k]@ == x)
    }
}

impl SelectionSet {
    /// No identifier is held twice.
    pub closed spec fn wf(&self) -> bool {
        forall|i: int, j: int|
            #![trigger self.ids@[i], self.ids@[j]]
            0 <= i < j < self.ids@.len() ==> self.ids@[i]@ != self.ids@[j]@
    }

    /// An empty selection.
    pub fn new() -> (r: SelectionSet)
        ensures
            r.wf(),
            r@ == Set::<Seq<char>>::empty(),
    {
        let r = SelectionSet { ids: Vec::new() };
        assert(r@ =~= Set::<Seq<char>>::empty());
        r
    }

    fn position(&self, id: &str) -> (r: Option<usize>)
        ensures
            match r {
                Some(k) => k < self.ids@.len() && self.ids@[k as int]@ == id@,
                None => !self@.contains(id@),
            },
    {
        let wanted = chars_of(id);
        let mut k: usize = 0;
        while k < self.ids.len()
            invariant
                wanted@ == id@,
                k <= self.ids@.len(),
                forall|m: int| 0 <= m < k ==> #[trigger] self.ids@[m]@ != id@,
            decreases self.ids@.len() - k,
        {
            if same_chars(&chars_of(self.ids[k].as_str()), &wanted) {
                return Some(k);
            }
            k = k + 1;
        }
        None
    }

    /// Marks `id` when `selected`, unmarks it otherwise; setting the same
    /// state twice changes nothing, and unmarking an unmarked id is a no-op.
    pub fn toggle(&mut self, id: &str, selected: bool)
        requires
            old(self).wf(),
        ensures
            final(self).wf(),
            final(self)@ == toggled(old(self)@, id@, selected),
    {
        match self.position(id) {
            Some(k) => {
                if !selected {
                    let ghost before = self.ids@;
                    self.ids.remove(k);
                    proof {
                        assert forall|x: Seq<char>| self@.contains(x) == old(self)@.remove(id@).contains(x) by {
                            if self@.contains(x) {
                                let m = choose|m: int| 0 <= m < self.ids@.len() && #[trigger] self.ids@[m]@ == x;
                                if m < k {
                                    assert(before[m] == self.ids@[m]);
                                } else {
                                    assert(before[m + 1] == self.ids@[m]);
                                }
                            }
                            if old(self)@.remove(id@).contains(x) {
                                let m = choose|m: int| 0 <= m < before.len() && #[trigger] before[m]@ == x;
                                if m < k {
                                    assert(self.ids@[m] == before[m]);
                                } else {
                                    assert(self.ids@[m - 1] == before[m]);
                                }
                            }
                        }
                        assert(self@ =~= old(self)@.remove(id@));
                    }
                } else {
                    assert(self@ =~= old(self)@.insert(id@));
                }
            },
            None => {
                if selected {
                    let ghost before = self.ids@;
                    self.ids.push(id.to_owned());
                    proof {
                        assert forall|x: Seq<char>| self@.contains(x) == old(self)@.insert(id@).contains(x) by {
                            if self@.contains(x) {
                                let m = choose|m: int| 0 <= m < self.ids@.len() && #[trigger] self.ids@[m]@ == x;
                                if m < before.len() {
                                    assert(before[m] == self.ids@[m]);
                                }
                            }
                            if old(self)@.contains(x) {
                                let m = choose|m: int| 0 <= m < before.len() && #[trigger] before[m]@ == x;
                                assert(self.ids@[m] == before[m]);
                            }
                            if x == id@ {
                                assert(self.ids@[before.len() as int]@ == x);
                            }
                        }
                        assert(self@ =~= old(self)@.insert(id@));
                    }
                } else {
                    assert(self@ =~= old(self)@.remove(id@));
                }
            },
        }
    }

    /// Marks or unmarks the identifier of `article`; an article without one
    /// is left alone.
    pub fn toggle_article(&mut self, article: &Article, selected: bool)
        requires
            old(self).wf(),
        ensures
            final(self).wf(),
            final(self)@ == match article.doi {
                Some(d) => toggled(old(self)@, d@, selected),
                None => old(self)@,
            },
    {
        if let Some(d) = &article.doi {
            self.toggle(d.as_str(), selected);
        }
    }

    /// Whether `id` is marked.
    pub fn is_selected(&self, id: &str) -> (r: bool)
        ensures
            r == self@.contains(id@),
    {
        match self.position(id) {
            Some(k) => {
                assert(self@.contains(id@));
                true
            },
            None => false,
        }
    }

    /// The marked identifiers, each once.
    pub fn selected_identifiers(&self) -> (r: Vec<String>)
        requires
            self.wf(),
        ensures
            forall|x: Seq<char>| self@.contains(x) <==> exists|k: int| 0 <= k < r@.len() && #[trigger] r@[k]@ == x,
            forall|i: int, j: int| #![trigger r@[i], r@[j]] 0 <= i < j < r@.len() ==> r@[i]@ != r@[j]@,
    {
        let mut out: Vec<String> = Vec::new();
        let mut k: usize = 0;
        while k < self.ids.len()
            invariant
                k <= self.ids@.len(),
                out@.len() == k,
                forall|m: int| 0 <= m < k ==> #[trigger] out@[m] == self.ids@[m],
            decreases self.ids@.len() - k,
        {
            out.push(self.ids[k].clone());
            k = k + 1;
        }
        proof {
            assert(out@ =~= self.ids@);
        }
        out
    }

    /// The articles whose identifier is marked, in their order in `articles`.
    pub fn selected_articles(&self, articles: &Vec<Article>) -> (r: Vec<Article>)
        ensures
            r@ == articles@.filter(|a: Article| is_marked(self@, a)),
    {
        let ghost pred = |a: Article| is_marked(self@, a);
        let mut out: Vec<Article> = Vec::new();
        let mut i: usize = 0;
        while i < articles.len()
            invariant
                i <= articles@.len(),
                pred == (|a: Article| is_marked(self@, a)),
                out@ == articles@.subrange(0, i as int).filter(pred),
            decreases articles@.len() - i,
        {
            let a = &articles[i];
            let keep = match &a.doi {
                Some(d) => self.is_selected(d.as_str()),
                None => false,
            };
            proof {
                let s = articles@.subrange(0, i + 1);
                assert(s.drop_last() =~= articles@.subrange(0, i as int));
                reveal(Seq::filter);
            }
            if keep {
                out.push(a.duplicate());
            }
            i = i + 1;
        }
        proof {
            assert(articles@.subrange(0, articles@.len() as int) =~= articles@);
        }
        out
    }
}

/// Setting the same state twice is the same as setting it once, and
/// unmarking leaves the identifier unmarked whether or not it was marked.
pub proof fn lemma_toggle_idempotent(s: Set<Seq<char>>, id: Seq<char>, selected: bool)
    ensures
        toggled(toggled(s, id, selected), id, selected) == toggled(s, id, selected),
        toggled(s, id, selected).contains(id) == selected,
        forall|x: Seq<char>| x != id ==> (#[trigger] toggled(s, id, selected).contains(x) == s.contains(x)),
        s.contains(id) == selected ==> toggled(s, id, selected) == s,
{
    assert(toggled(toggled(s, id, selected), id, selected) =~= toggled(s, id, selected));
    if s.contains(id) == selected {
        assert(toggled(s, id, selected) =~= s);
    }
}

} // verus!
