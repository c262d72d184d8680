use vstd::prelude::*;
use vstd::string::*;
use vstd::arithmetic::div_mod::lemma_fundamental_div_mod_converse;
use crate::record::Record;

verus! {

/// One decoded answer to a "list children" request.
#[derive(Debug)]
pub struct NotionBlockResponse {
    /// The identifier the API echoes back.
    pub id: String,
    /// The records of this page, in the API's order.
    pub results: Vec<Record>,
    /// Whether the API says more pages follow.
    pub has_more: Option<bool>,
    /// The cursor to hand to the next request.
    pub next_cursor: Option<String>,
}

/// A page response as the paginator sees it.
pub struct PageView {
    pub results: Seq<Record>,
    pub has_more: Option<bool>,
    pub next_cursor: Option<Seq<char>>,
}

pub open spec fn opt_view(s: Option<String>) -> Option<Seq<char>> {
    match s {
        Some(c) => Some(c@),
        None => None,
    }
}

impl View for NotionBlockResponse {
    type V = PageView;

    open spec fn view(&self) -> PageView {
        PageView { results: self.results@, has_more: self.has_more, next_cursor: opt_view(self.next_cursor) }
    }
}

/// Pagination goes on after this page only if the API says more follow and
/// hands a cursor for them; a missing cursor ends it whatever the flag says.
pub open spec fn continues(p: PageView) -> bool {
    p.has_more == Some(true) && p.next_cursor.is_some()
}

impl NotionBlockResponse {
    /// Whether another request follows this page.
    pub fn continues(&self) -> (b: bool)
        ensures
            b == continues(self@),
    {
        let more = match self.has_more {
            Some(m) => m,
            None => false,
        };
        more && self.next_cursor.is_some()
    }
}

/// The request URL for one page of `parent`'s children.
pub open spec fn page_url_spec(parent: Seq<char>, cursor: Option<Seq<char>>) -> Seq<char> {
    let base = "https://api.notion.com/v1/blocks/"@ + parent + "/children?page_size=100"@;
    match cursor {
        Some(c) => base + "&start_cursor="@ + c,
        None => base,
    }
}

/// Builds the request URL for one page of `parent`'s children, continuing
/// from `cursor` where there is one.
pub fn page_url(parent: &str, cursor: &Option<String>) -> (r: String)
    ensures
        r@ == page_url_spec(parent@, opt_view(*cursor)),
{
    let mut url = String::from_str("https://api.notion.com/v1/blocks/");
    url.append(parent);
    url.append("/children?page_size=100");
    match cursor {
        Some(c) => {
            url.append("&start_cursor=");
            url.append(c.as_str());
        },
        None => {},
    }
    url
}

/// The state of paginating the children of one parent.
pub struct Paginator {
    /// Whose children are listed.
    pub parent: String,
    /// The cursor that the latest response handed out.
    pub cursor: Option<String>,
    /// Every record received so far, in response order.
    pub records: Vec<Record>,
    /// Whether the latest response ended the pagination.
    pub finished: bool,
    /// How many responses were taken in.
    pub requests: usize,
}

/// The paginator as a mathematical value.
pub struct PaginatorView {
    pub parent: Seq<char>,
    pub cursor: Option<Seq<char>>,
    pub records: Seq<Record>,
    pub finished: bool,
    pub requests: nat,
}

impl View for Paginator {
    type V = PaginatorView;

    open spec fn view(&self) -> PaginatorView {
        PaginatorView {
            parent: self.parent@,
            cursor: opt_view(self.cursor),
            records: self.records@,
            finished: self.finished,
            requests: self.requests as nat,
        }
    }
}

/// The state before the first request.
pub open spec fn start(parent: Seq<char>) -> PaginatorView {
    PaginatorView { parent, cursor: None, records: Seq::empty(), finished: false, requests: 0 }
}

/// The state after taking in one more page.
pub open spec fn step(s: PaginatorView, p: PageView) -> PaginatorView {
    PaginatorView {
        parent: s.parent,
        cursor: p.next_cursor,
        records: s.records + p.results,
        finished: !continues(p),
        requests: s.requests + 1,
    }
}

/// The state after the API answers with `pages`, in order, for as long as
/// pagination goes on.
pub open spec fn run(s: PaginatorView, pages: Seq<PageView>) -> PaginatorView
    decreases pages.len(),
{
    if pages.len() == 0 || s.finished {
        s
    } else {
        run(step(s, pages[0]), pages.drop_first())
    }
}

/// The records of `pages`, page after page.
pub open spec fn all_results(pages: Seq<PageView>) -> Seq<Record>
    decreases pages.len(),
{
    if pages.len() == 0 {
        Seq::empty()
    } else {
        pages[0].results + all_results(pages.drop_first())
    }
}

/// From any state still paginating, the pages up to and including the first
/// one that ends pagination are taken in, and no later one.
proof fn lemma_run_from(s: PaginatorView, pages: Seq<PageView>, j: int)
    requires
        !s.finished,
        0 <= j < pages.len(),
        !continues(pages[j]),
        forall|i: int| 0 <= i < j ==> continues(#[trigger] pages[i]),
    ensures
        run(s, pages) == run(s, pages.take(j + 1)),
        run(s, pages).finished,
        run(s, pages).requests == s.requests + j + 1,
        run(s, pages).records == s.records + all_results(pages.take(j + 1)),
        forall|i: int|
            0 < i <= j ==> {
                let t = #[trigger] run(s, pages.take(i));
                &&& t.cursor == pages[i - 1].next_cursor
                &&& !t.finished
                &&& t.requests == s.requests + i
            },
    decreases j,
{
    let s1 = step(s, pages[0]);
    let rest = pages.drop_first();
    assert(pages.take(j + 1).drop_first() =~= rest.take(j));
    assert(pages.take(j + 1)[0] == pages[0]);
    if j == 0 {
        assert(rest.take(0).len() == 0);
        assert(all_results(rest.take(0)) == Seq::<Record>::empty());
        assert(s.records + pages[0].results + Seq::<Record>::empty() =~= s.records + pages[0].results);
    } else {
        assert(continues(pages[0]));
        assert forall|i: int| 0 <= i < j - 1 implies continues(#[trigger] rest[i]) by {
            assert(rest[i] == pages[i + 1]);
        }
        lemma_run_from(s1, rest, j - 1);
        assert(s1.records + all_results(rest.take(j)) =~= s.records + (pages[0].results
            + all_results(rest.take(j))));
        assert forall|i: int| 0 < i <= j implies {
            let t = #[trigger] run(s, pages.take(i));
            &&& t.cursor == pages[i - 1].next_cursor
            &&& !t.finished
            &&& t.requests == s.requests + i
        } by {
            let ti = pages.take(i);
            assert(ti.drop_first() =~= rest.take(i - 1));
            assert(ti[0] == pages[0]);
            assert(run(s, ti) == run(s1, rest.take(i - 1)));
            if i > 1 {
                assert(rest[i - 2] == pages[i - 1]);
                let t1 = run(s1, rest.take(i - 1));
                assert(t1.cursor == rest[i - 2].next_cursor);
            } else {
                assert(rest.take(0).len() == 0);
                assert(run(s1, rest.take(0)) == s1);
            }
        }
    }
}

/// Pagination of one parent issues one request per page up to and including
/// the first page that does not continue (the flag is off or the cursor is
/// missing), and then stops. Every request after the first carries the cursor
/// of the response just before it, and the records come out page after page.
pub proof fn lemma_pagination(parent: Seq<char>, pages: Seq<PageView>, j: int)
    requires
        0 <= j < pages.len(),
        !continues(pages[j]),
        forall|i: int| 0 <= i < j ==> continues(#[trigger] pages[i]),
    ensures
        ({
            let end = run(start(parent), pages);
            &&& end == run(start(parent), pages.take(j + 1))
            &&& end.finished
            &&& end.requests == j + 1
            &&& end.records == all_results(pages.take(j + 1))
        }),
        start(parent).cursor.is_none(),
        forall|i: int|
            0 < i <= j ==> {
                let t = #[trigger] run(start(parent), pages.take(i));
                &&& t.cursor == pages[i - 1].next_cursor
                &&& !t.finished
                &&& t.requests == i
            },
{
    lemma_run_from(start(parent), pages, j);
    assert(Seq::<Record>::empty() + all_results(pages.take(j + 1)) =~= all_results(pages.take(j + 1)));
}

/// The number of records in `pages`.
proof fn lemma_all_results_len(pages: Seq<PageView>, page_size: nat)
    requires
        pages.len() > 0,
        forall|i: int| 0 <= i < pages.len() - 1 ==> (#[trigger] pages[i]).results.len() == page_size,
    ensures
        all_results(pages).len() == (pages.len() - 1) * page_size + pages.last().results.len(),
    decreases pages.len(),
{
    if pages.len() > 1 {
        let rest = pages.drop_first();
        assert forall|i: int| 0 <= i < rest.len() - 1 implies (#[trigger] rest[i]).results.len() == page_size by {
            assert(rest[i] == pages[i + 1]);
        }
        lemma_all_results_len(rest, page_size);
        assert(rest.last() == pages.last());
        assert(pages[0].results.len() == page_size);
        assert(all_results(pages) == pages[0].results + all_results(rest));
        assert((pages.len() - 1) * page_size == (rest.len() - 1) * page_size + page_size) by (nonlinear_arith)
            requires pages.len() == rest.len() + 1;
    } else {
        assert(pages.drop_first().len() == 0);
        assert(all_results(pages) == pages[0].results + all_results(pages.drop_first()));
        assert(all_results(pages.drop_first()).len() == 0);
    }
}

/// Where every page but the last is full and the last holds at least one
/// record, the number of pages fetched is the number of records divided by the
/// page size, rounded up.
pub proof fn lemma_request_count(pages: Seq<PageView>, page_size: nat)
    requires
        pages.len() > 0,
        page_size > 0,
        forall|i: int| 0 <= i < pages.len() - 1 ==> (#[trigger] pages[i]).results.len() == page_size,
        0 < pages.last().results.len() <= page_size,
    ensures
        pages.len() == (all_results(pages).len() + page_size - 1) / (page_size as int),
{
    lemma_all_results_len(pages, page_size);
    let n = pages.len() as int;
    let l = pages.last().results.len() as int;
    let d = page_size as int;
    let x = all_results(pages).len() + d - 1;
    assert(x == n * d + (l - 1)) by (nonlinear_arith)
        requires x == (n - 1) * d + l + d - 1;
    lemma_fundamental_div_mod_converse(x, d, n, l - 1);
}

impl Paginator {
    /// Starts paginating the children of `parent`.
    pub fn new(parent: String) -> (p: Paginator)
        ensures
            p@ == start(parent@),
    {
        Paginator { parent, cursor: None, records: Vec::new(), finished: false, requests: 0 }
    }

    /// The URL of the next request, or `None` once pagination has ended.
    pub fn next_url(&self) -> (u: Option<String>)
        ensures
            self.finished ==> u.is_none(),
            !self.finished ==> u.is_some() && u.unwrap()@ == page_url_spec(
                self.parent@,
                opt_view(self.cursor),
            ),
    {
        if self.finished {
            None
        } else {
            Some(page_url(self.parent.as_str(), &self.cursor))
        }
    }

    /// Takes in the response to the latest request.
    pub fn absorb(&mut self, page: NotionBlockResponse)
        requires
            !old(self).finished,
            old(self).requests < usize::MAX,
        ensures
            final(self)@ == step(old(self)@, page@),
    {
        let go_on = page.continues();
        let mut results = page.results;
        self.records.append(&mut results);
        self.cursor = page.next_cursor;
        self.finished = !go_on;
        self.requests = self.requests + 1;
    }

    /// Ends pagination and hands over the records received.
    pub fn into_records(self) -> (r: Vec<Record>)
        ensures
            r@ == self.records@,
    {
        self.records
    }
}

} // verus!
