use vstd::prelude::*;

verus! {

/// Half-width of the run of page links shown around the current page.
pub const WINDOW_RADIUS: usize = 2;

/// One entry of the pagination bar.
#[derive(Debug, Clone, Copy, PartialEq, Eq, Structural)]
pub enum PageLink {
    /// A link to the page with this index.
    Page(usize),
    /// A gap between two runs of links.
    Ellipsis,
}

/// The rows and page links to display for one page.
#[derive(Debug)]
pub struct Window {
    /// Index of the first row shown.
    pub first_index: usize,
    /// One past the index of the last row shown.
    pub last_index: usize,
    /// The current page after clamping.
    pub current_page: usize,
    pub page_links: Vec<PageLink>,
}

/// Number of full pages: a trailing partial page is not counted.
pub open spec fn total_pages(total: nat, page_size: nat) -> nat {
    total / page_size
}

/// `x` clamped to `[0, hi]`.
pub open spec fn clamp(x: int, hi: int) -> int {
    if x < 0 {
        0
    } else if x > hi {
        hi
    } else {
        x
    }
}

/// The current page clamped to `[0, total_pages]`.
pub open spec fn clamped_page(total: nat, page_size: nat, current: nat) -> nat {
    if current > total_pages(total, page_size) {
        total_pages(total, page_size)
    } else {
        current
    }
}

/// Index of the first row of the current page.
pub open spec fn first_row(total: nat, page_size: nat, current: nat) -> nat {
    clamped_page(total, page_size, current) * page_size
}

/// One past the index of the last row of the current page.
pub open spec fn last_row(total: nat, page_size: nat, current: nat) -> nat {
    if first_row(total, page_size, current) + page_size > total {
        total
    } else {
        first_row(total, page_size, current) + page_size
    }
}

/// Upper end (exclusive) of the run of page links around page `current`
/// out of `tp` pages.
pub open spec fn run_high(tp: int, current: int) -> int {
    let low = clamp(current - WINDOW_RADIUS, tp);
    clamp(low + 2 * WINDOW_RADIUS + 1, tp)
}

/// Lower end of the run of page links around page `current` out of `tp` pages.
pub open spec fn run_low(tp: int, current: int) -> int {
    clamp(run_high(tp, current) - 2 * WINDOW_RADIUS - 1, tp)
}

/// The page links for page `current` out of `tp` pages: the run
/// `low..high`, preceded by page 0 (and a gap marker when pages are
/// skipped) when the run does not start at 0, and followed by the last page
/// (and a gap marker before it when pages are skipped) when the run does not
/// reach the end.
pub open spec fn links_around(tp: int, current: int) -> Seq<PageLink> {
    let low = run_low(tp, current);
    let high = run_high(tp, current);
    let head = if low != 0 {
        seq![PageLink::Page(0)] + if low >= 2 {
            seq![PageLink::Ellipsis]
        } else {
            Seq::empty()
        }
    } else {
        Seq::empty()
    };
    let run = Seq::new((high - low) as nat, |k: int| PageLink::Page((low + k) as usize));
    let tail = if high != tp {
        (if tp - high >= 2 {
            seq![PageLink::Ellipsis]
        } else {
            Seq::empty()
        }) + seq![PageLink::Page((tp - 1) as usize)]
    } else {
        Seq::empty()
    };
    head + run + tail
}

/// The page links of the current page, `page_size` rows a page, out of
/// `total` rows.
pub open spec fn page_links(total: nat, page_size: nat, current: nat) -> Seq<PageLink> {
    links_around(
        total_pages(total, page_size) as int,
        clamped_page(total, page_size, current) as int,
    )
}

fn page_rows(total: usize, page_size: usize, current_page: usize) -> (r: (usize, usize, usize))
    requires
        page_size > 0,
    ensures
        r.0 == first_row(total as nat, page_size as nat, current_page as nat),
        r.1 == last_row(total as nat, page_size as nat, current_page as nat),
        r.2 == clamped_page(total as nat, page_size as nat, current_page as nat),
        r.0 <= r.1 <= total,
{
    let tp = total / page_size;
    let current = if current_page > tp {
        tp
    } else {
        current_page
    };
    proof {
        assert(current * page_size <= tp * page_size) by (nonlinear_arith)
            requires
                current <= tp,
        ;
        assert(tp * page_size <= total) by (nonlinear_arith)
            requires
                tp == total / page_size,
                page_size > 0,
        ;
    }
    let first = current * page_size;
    let last = if total - first < page_size {
        total
    } else {
        first + page_size
    };
    (first, last, current)
}

fn build_links(tp: usize, current: usize) -> (links: Vec<PageLink>)
    requires
        current <= tp,
    ensures
        links@ == links_around(tp as int, current as int),
{
    let span = 2 * WINDOW_RADIUS + 1;
    let low0 = if current >= WINDOW_RADIUS {
        current - WINDOW_RADIUS
    } else {
        0
    };
    let high = if tp - low0 < span {
        tp
    } else {
        low0 + span
    };
    let low = if high >= span {
        high - span
    } else {
        0
    };
    assert(high == run_high(tp as int, current as int));
    assert(low == run_low(tp as int, current as int));
    let mut links: Vec<PageLink> = Vec::new();
    if low != 0 {
        links.push(PageLink::Page(0));
        if low >= 2 {
            links.push(PageLink::Ellipsis);
        }
    }
    let ghost head = links@;
    let mut k: usize = low;
    while k < high
        invariant
            low <= k <= high <= tp,
            links@ == head + Seq::new((k - low) as nat, |m: int| PageLink::Page((low + m) as usize)),
        decreases high - k,
    {
        links.push(PageLink::Page(k));
        k = k + 1;
        proof {
            assert(links@ =~= head + Seq::new((k - low) as nat, |m: int| PageLink::Page((low + m) as usize)));
        }
    }
    if high != tp {
        if tp - high >= 2 {
            links.push(PageLink::Ellipsis);
        }
        links.push(PageLink::Page(tp - 1));
    }
    assert(links@ =~= links_around(tp as int, current as int));
    links
}

/// The rows and page links of the current page, `page_size` rows a page,
/// out of `total_visible` rows.
pub fn compute_window(total_visible: usize, page_size: usize, current_page: usize) -> (w: Window)
    requires
        page_size > 0,
    ensures
        w.current_page == clamped_page(total_visible as nat, page_size as nat, current_page as nat),
        w.first_index == first_row(total_visible as nat, page_size as nat, current_page as nat),
        w.last_index == last_row(total_visible as nat, page_size as nat, current_page as nat),
        w.page_links@ == page_links(total_visible as nat, page_size as nat, current_page as nat),
        w.current_page <= total_pages(total_visible as nat, page_size as nat),
        w.first_index <= w.last_index <= total_visible,
{
    let (first, last, current) = page_rows(total_visible, page_size, current_page);
    let links = build_links(total_visible / page_size, current);
    Window { first_index: first, last_index: last, current_page: current, page_links: links }
}

/// Whatever the inputs, the window is well placed: the current page is
/// clamped to `[0, total_pages]`, the row bounds satisfy
/// `first <= last <= total`, and every page link names an existing page.
pub proof fn lemma_window_in_range(total: nat, page_size: nat, current: nat)
    requires
        page_size > 0,
    ensures
        clamped_page(total, page_size, current) <= total_pages(total, page_size),
        first_row(total, page_size, current) <= last_row(total, page_size, current) <= total,
        forall|k: int| #![trigger page_links(total, page_size, current)[k]]
            0 <= k < page_links(total, page_size, current).len() ==> match page_links(total, page_size, current)[k] {
                PageLink::Page(p) => p < total_pages(total, page_size),
                PageLink::Ellipsis => true,
            },
{
    let tp = total_pages(total, page_size);
    let c = clamped_page(total, page_size, current);
    assert(c * page_size <= tp * page_size) by (nonlinear_arith)
        requires
            c <= tp,
    ;
    assert(tp * page_size <= total) by (nonlinear_arith)
        requires
            tp == total / page_size,
            page_size > 0,
    ;
    let links = page_links(total, page_size, current);
    let low = run_low(tp as int, c as int);
    let high = run_high(tp as int, c as int);
    assert forall|k: int| #![trigger links[k]] 0 <= k < links.len() implies match links[k] {
        PageLink::Page(p) => p < tp,
        PageLink::Ellipsis => true,
    } by {
        let head = if low != 0 {
            seq![PageLink::Page(0)] + if low >= 2 {
                seq![PageLink::Ellipsis]
            } else {
                Seq::empty()
            }
        } else {
            Seq::empty()
        };
        let run = Seq::new((high - low) as nat, |m: int| PageLink::Page((low + m) as usize));
        if k < head.len() {
        } else if k < head.len() + run.len() {
            assert(links[k] == run[k - head.len()]);
        } else {
        }
    }
}

} // verus!
