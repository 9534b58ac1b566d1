//! Lists that come in pages.

use vstd::prelude::*;

use crate::api::{
    Bounce, BouncesResponse, Complaint, ComplaintsResponse, Paging, Unsubscribe,
    UnsubscribesResponse,
};

verus! {

/// What a page holds: its items and where the pages around it are.
#[verifier::ext_equal]
pub struct Page<T> {
    pub items: Seq<T>,
    pub paging: Option<Paging>,
}

impl<T> Page<T> {
    /// Where the next page is.
    pub open spec fn next(self) -> Option<String> {
        match self.paging {
            Some(paging) => paging.next,
            None => None,
        }
    }

    /// The list after another page was added: its items at the end, and its way onward.
    pub open spec fn followed_by(self, page: Page<T>) -> Page<T> {
        Page { items: self.items + page.items, paging: page.paging }
    }

    /// The list after what came as its next page. A page without items changes nothing.
    pub open spec fn with_page(self, page: Page<T>) -> Page<T> {
        if page.items.len() == 0 {
            self
        } else {
            self.followed_by(page)
        }
    }

    /// The list with no more than `limit` of its items, the first ones, where there is a limit.
    pub open spec fn at_most(self, limit: Option<u32>) -> Page<T> {
        match limit {
            Some(limit) => if self.items.len() > limit {
                Page { items: self.items.take(limit as int), paging: self.paging }
            } else {
                self
            },
            None => self,
        }
    }

    /// Where the page after this one is. A page without items ends its list.
    pub open spec fn onward(self) -> Option<String> {
        if self.items.len() == 0 {
            None
        } else {
            self.next()
        }
    }
}

/// A list that comes in pages.
pub trait Paginated: Sized {
    type Item;

    /// What the list holds so far.
    spec fn page(&self) -> Page<Self::Item>;

    /// Where the pages around this one are.
    fn paging(&self) -> (r: Option<&Paging>)
        ensures
            match r {
                Some(paging) => self.page().paging == Some(*paging),
                None => self.page().paging is None,
            },
    ;

    /// Replaces where the pages around this one are.
    fn set_paging(&mut self, paging: Option<Paging>)
        ensures
            final(self).page() == (Page { items: old(self).page().items, paging }),
    ;

    /// Adds the items of another page at the end.
    fn extend_items(&mut self, other: Self)
        ensures
            final(self).page() == (Page {
                items: old(self).page().items + other.page().items,
                paging: old(self).page().paging,
            }),
    ;

    /// Keeps the first `len` items only.
    fn truncate_items(&mut self, len: usize)
        ensures
            final(self).page() == (Page {
                items: if len < old(self).page().items.len() {
                    old(self).page().items.take(len as int)
                } else {
                    old(self).page().items
                },
                paging: old(self).page().paging,
            }),
    ;

    /// Whether a page has no items.
    fn items_empty(other: &Self) -> (r: bool)
        ensures
            r == (other.page().items.len() == 0),
    ;
}

impl Paginated for BouncesResponse {
    type Item = Bounce;

    open spec fn page(&self) -> Page<Bounce> {
        Page { items: self.items@, paging: self.paging }
    }

    fn paging(&self) -> (r: Option<&Paging>) {
        self.paging.as_ref()
    }

    fn set_paging(&mut self, paging: Option<Paging>) {
        self.paging = paging;
    }

    fn extend_items(&mut self, other: Self) {
        let mut more = other.items;
        self.items.append(&mut more);
    }

    fn truncate_items(&mut self, len: usize) {
        self.items.truncate(len);
    }

    fn items_empty(other: &Self) -> (r: bool) {
        other.items.is_empty()
    }
}

impl Paginated for ComplaintsResponse {
    type Item = Complaint;

    open spec fn page(&self) -> Page<Complaint> {
        Page { items: self.items@, paging: self.paging }
    }

    fn paging(&self) -> (r: Option<&Paging>) {
        self.paging.as_ref()
    }

    fn set_paging(&mut self, paging: Option<Paging>) {
        self.paging = paging;
    }

    fn extend_items(&mut self, other: Self) {
        let mut more = other.items;
        self.items.append(&mut more);
    }

    fn truncate_items(&mut self, len: usize) {
        self.items.truncate(len);
    }

    fn items_empty(other: &Self) -> (r: bool) {
        other.items.is_empty()
    }
}

impl Paginated for UnsubscribesResponse {
    type Item = Unsubscribe;

    open spec fn page(&self) -> Page<Unsubscribe> {
        Page { items: self.items@, paging: self.paging }
    }

    fn paging(&self) -> (r: Option<&Paging>) {
        self.paging.as_ref()
    }

    fn set_paging(&mut self, paging: Option<Paging>) {
        self.paging = paging;
    }

    fn extend_items(&mut self, other: Self) {
        let mut more = other.items;
        self.items.append(&mut more);
    }

    fn truncate_items(&mut self, len: usize) {
        self.items.truncate(len);
    }

    fn items_empty(other: &Self) -> (r: bool) {
        other.items.is_empty()
    }
}

/// Where to fetch the next page of a list from, or nothing where the list is complete.
pub fn next_page_url<T: Paginated>(list: &T) -> (r: Option<String>)
    ensures
        r == list.page().next(),
        list.page().paging is Some ==> r == list.page().paging->0.next,
        list.page().paging is None ==> r is None,
{
    match list.paging() {
        Some(paging) => paging.next.clone(),
        None => None,
    }
}

/// Adds a page to a list, and says where to fetch the next one from. A page without items ends
/// the list and changes nothing.
pub fn add_page<T: Paginated>(list: &mut T, page: T) -> (r: Option<String>)
    ensures
        final(list).page() == old(list).page().with_page(page.page()),
        r == page.page().onward(),
        page.page().items.len() == 0 ==> *final(list) == *old(list) && r is None,
        page.page().items.len() > 0 ==> {
            &&& final(list).page().items == old(list).page().items + page.page().items
            &&& final(list).page().paging == page.page().paging
        },
        page.page().items.len() > 0 && page.page().paging is Some ==> r
            == page.page().paging->0.next,
{
    if T::items_empty(&page) {
        return None;
    }
    let paging = match page.paging() {
        Some(paging) => Some(paging.clone()),
        None => None,
    };
    list.extend_items(page);
    list.set_paging(paging);
    next_page_url(list)
}

/// No more than `limit` of the items of a list, the first ones, where there is a limit.
pub fn limited<T: Paginated>(list: T, limit: Option<u32>) -> (r: T)
    ensures
        r.page() == list.page().at_most(limit),
{
    let mut list = list;
    if let Some(limit) = limit {
        list.truncate_items(limit as usize);
    }
    list
}

/// A list of which pages are being fetched.
#[derive(Debug)]
pub struct Listing<T> {
    /// What was fetched so far.
    pub list: T,
    /// Where to fetch the next page from, or nothing where the list is complete.
    pub next: Option<String>,
}

impl<T: Paginated> Listing<T> {
    /// The list after its first page was asked for. Where that failed, so has the list.
    pub fn start<E>(first: Result<T, E>) -> (r: Result<Self, E>)
        ensures
            match first {
                Ok(page) => {
                    &&& r is Ok
                    &&& r->Ok_0.list == page
                    &&& r->Ok_0.next == page.page().next()
                    &&& page.page().paging is Some ==> r->Ok_0.next == page.page().paging->0.next
                },
                Err(error) => r == Err::<Self, E>(error),
            },
    {
        match first {
            Ok(list) => {
                let next = next_page_url(&list);
                Ok(Listing { list, next })
            },
            Err(error) => Err(error),
        }
    }

    /// The list after its next page was asked for. Where that failed, so has the whole list,
    /// whatever was fetched before.
    pub fn after_fetch<E>(self, fetched: Result<T, E>) -> (r: Result<Self, E>)
        ensures
            match fetched {
                Ok(page) => {
                    &&& r is Ok
                    &&& r->Ok_0.list.page() == self.list.page().with_page(page.page())
                    &&& r->Ok_0.next == page.page().onward()
                    &&& page.page().items.len() > 0 && page.page().paging is Some ==> r->Ok_0.next
                        == page.page().paging->0.next
                },
                Err(error) => r == Err::<Self, E>(error),
            },
    {
        match fetched {
            Ok(page) => {
                let mut list = self.list;
                let next = add_page(&mut list, page);
                Ok(Listing { list, next })
            },
            Err(error) => Err(error),
        }
    }
}

/// What becomes of a list that goes on at `next`, when `fetched` is what comes of fetching its
/// next pages, one after another.
pub open spec fn listed<T, E>(
    list: Page<T>,
    next: Option<String>,
    fetched: Seq<Result<Page<T>, E>>,
) -> Result<Page<T>, E>
    decreases fetched.len(),
{
    if next is None || fetched.len() == 0 {
        Ok(list)
    } else {
        match fetched[0] {
            Ok(page) => listed(list.with_page(page), page.onward(), fetched.drop_first()),
            Err(error) => Err(error),
        }
    }
}

/// A page that cannot be fetched fails the whole list: where the pages before it lead up to it,
/// its error is what becomes of the list.
pub proof fn failed_page_fails_the_list<T, E>(
    list: Page<T>,
    next: Option<String>,
    fetched: Seq<Result<Page<T>, E>>,
    at: int,
)
    requires
        next is Some,
        0 <= at < fetched.len(),
        fetched[at] is Err,
        forall|i: int|
            0 <= i < at ==> {
                &&& (#[trigger] fetched[i]) is Ok
                &&& fetched[i]->Ok_0.items.len() > 0
                &&& fetched[i]->Ok_0.paging is Some
                &&& fetched[i]->Ok_0.paging->0.next is Some
            },
    ensures
        listed(list, next, fetched) == Err::<Page<T>, E>(fetched[at]->Err_0),
    decreases at,
{
    if at > 0 {
        let page = fetched[0]->Ok_0;
        let rest = fetched.drop_first();
        assert(fetched[0] is Ok && page.paging->0.next is Some);
        assert forall|i: int| 0 <= i < at - 1 implies {
            &&& (#[trigger] rest[i]) is Ok
            &&& rest[i]->Ok_0.items.len() > 0
            &&& rest[i]->Ok_0.paging is Some
            &&& rest[i]->Ok_0.paging->0.next is Some
        } by {
            assert(rest[i] == fetched[i + 1]);
        }
        failed_page_fails_the_list(list.with_page(page), page.onward(), rest, at - 1);
    }
}

/// Where each page can be fetched, the list is what is collected of its pages.
pub proof fn fetched_pages_are_collected<T, E>(
    list: Page<T>,
    next: Option<String>,
    pages: Seq<Page<T>>,
)
    ensures
        listed(list, next, pages.map_values(|page: Page<T>| Ok::<Page<T>, E>(page))) == Ok::<
            Page<T>,
            E,
        >(collected_from(list, next, pages)),
    decreases pages.len(),
{
    let fetched = pages.map_values(|page: Page<T>| Ok::<Page<T>, E>(page));
    if next is Some && pages.len() > 0 {
        let rest = pages.drop_first();
        fetched_pages_are_collected::<T, E>(
            list.with_page(pages[0]),
            pages[0].onward(),
            rest,
        );
        assert(fetched.drop_first() =~= rest.map_values(|page: Page<T>| Ok::<Page<T>, E>(page)));
    }
}

/// What is collected of a list that goes on at `next`, when `pages` are what fetching its next
/// pages gives, one after another.
pub open spec fn collected_from<T>(
    list: Page<T>,
    next: Option<String>,
    pages: Seq<Page<T>>,
) -> Page<T>
    decreases pages.len(),
{
    if next is None || pages.len() == 0 {
        list
    } else {
        collected_from(list.with_page(pages[0]), pages[0].onward(), pages.drop_first())
    }
}

/// What is collected of a list when `pages` are what fetching its next pages gives, one after
/// another.
pub open spec fn collected<T>(list: Page<T>, pages: Seq<Page<T>>) -> Page<T> {
    collected_from(list, list.next(), pages)
}

/// The items of all pages in order.
pub open spec fn all_items<T>(pages: Seq<Page<T>>) -> Seq<T>
    decreases pages.len(),
{
    if pages.len() == 0 {
        seq![]
    } else {
        pages[0].items + all_items(pages.drop_first())
    }
}

/// A list keeps the items that it had, in their order, in front of those of later pages.
pub proof fn collecting_keeps_items<T>(list: Page<T>, pages: Seq<Page<T>>)
    ensures
        list.items.is_prefix_of(collected(list, pages).items),
{
    lemma_collecting_keeps_items(list, list.next(), pages);
}

proof fn lemma_collecting_keeps_items<T>(
    list: Page<T>,
    next: Option<String>,
    pages: Seq<Page<T>>,
)
    ensures
        list.items.is_prefix_of(collected_from(list, next, pages).items),
    decreases pages.len(),
{
    if next is Some && pages.len() > 0 {
        lemma_collecting_keeps_items(
            list.with_page(pages[0]),
            pages[0].onward(),
            pages.drop_first(),
        );
        assert(list.items.is_prefix_of(list.with_page(pages[0]).items));
    }
}

/// All pages are fetched: where each page up to the last has items and each but the last has a
/// link to a next one, the list ends up with the items of all of them, in order, and with the way
/// onward of the last.
pub proof fn all_pages_are_collected<T>(list: Page<T>, pages: Seq<Page<T>>)
    requires
        pages.len() > 0 ==> list.paging is Some && list.paging->0.next is Some,
        forall|i: int| 0 <= i < pages.len() ==> (#[trigger] pages[i]).items.len() > 0,
        forall|i: int|
            0 <= i < pages.len() - 1 ==> (#[trigger] pages[i]).paging is Some
                && pages[i].paging->0.next is Some,
    ensures
        collected(list, pages).items == list.items + all_items(pages),
        collected(list, pages).items == list.items + pages.map_values(
            |page: Page<T>| page.items,
        ).flatten(),
        pages.len() > 0 ==> collected(list, pages).paging == pages.last().paging,
        pages.len() == 0 ==> collected(list, pages) == list,
    decreases pages.len(),
{
    let parts = pages.map_values(|page: Page<T>| page.items);
    if pages.len() == 0 {
        assert(list.items + all_items(pages) =~= list.items);
        assert(list.items + parts.flatten() =~= list.items);
    } else {
        let first = pages[0];
        let rest = pages.drop_first();
        assert forall|i: int| 0 <= i < rest.len() implies (#[trigger] rest[i]).items.len() > 0 by {
            assert(rest[i] == pages[i + 1]);
        }
        assert forall|i: int| 0 <= i < rest.len() - 1 implies (#[trigger] rest[i]).paging is Some
            && rest[i].paging->0.next is Some by {
            assert(rest[i] == pages[i + 1]);
        }
        let more = rest.map_values(|page: Page<T>| page.items);
        assert(parts.drop_first() =~= more);
        assert(parts.first() == first.items);
        assert(list.items + (first.items + more.flatten()) =~= (list.items + first.items)
            + more.flatten());
        all_pages_are_collected(list.followed_by(first), rest);
        assert(list.items + (first.items + all_items(rest)) =~= (list.items + first.items) + all_items(
            rest,
        ));
    }
}

/// Collecting stops where there is no next page, and at the first page without items, which
/// changes nothing.
pub proof fn collecting_stops<T>(list: Page<T>, pages: Seq<Page<T>>)
    requires
        list.paging is None || list.paging->0.next is None || (pages.len() > 0
            && pages[0].items.len() == 0),
    ensures
        collected(list, pages) == list,
{
    if list.next() is Some {
        assert(collected_from(list, None, pages.drop_first()) == list);
    }
}

/// A list goes on exactly where the link of its latest page says, whatever else that page links
/// to; a page without items or without links ends it.
pub proof fn a_list_goes_on_at_the_next_link<T>(page: Page<T>)
    ensures
        page.paging is Some ==> page.next() == page.paging->0.next,
        page.paging is None ==> page.next() is None,
        page.items.len() > 0 && page.paging is Some ==> page.onward() == page.paging->0.next,
        page.paging is None ==> page.onward() is None,
        page.items.len() == 0 ==> page.onward() is None,
{
}

/// A page that came adds all its items behind those that were there, and brings its links; a page
/// without items adds and changes nothing.
pub proof fn a_page_adds_its_items<T>(list: Page<T>, page: Page<T>)
    ensures
        page.items.len() > 0 ==> list.with_page(page).items == list.items + page.items,
        page.items.len() > 0 ==> list.with_page(page).paging == page.paging,
        page.items.len() == 0 ==> list.with_page(page) == list,
        list.followed_by(page).items == list.items + page.items,
        list.followed_by(page).paging == page.paging,
{
}

/// A limit keeps as many of the first items as it says, all where there are no more, and the
/// links; without a limit all items stay.
pub proof fn a_limit_keeps_the_first_items<T>(list: Page<T>, limit: u32)
    ensures
        list.at_most(Some(limit)).items.is_prefix_of(list.items),
        list.at_most(Some(limit)).items.len() == if list.items.len() < limit {
            list.items.len() as int
        } else {
            limit as int
        },
        list.at_most(Some(limit)).paging == list.paging,
        list.at_most(None) == list,
{
}

/// What a list of each kind holds is what was received: its items and its links.
pub proof fn lists_hold_what_was_received(
    bounces: BouncesResponse,
    complaints: ComplaintsResponse,
    unsubscribes: UnsubscribesResponse,
)
    ensures
        bounces.page().items == bounces.items@,
        bounces.page().paging == bounces.paging,
        complaints.page().items == complaints.items@,
        complaints.page().paging == complaints.paging,
        unsubscribes.page().items == unsubscribes.items@,
        unsubscribes.page().paging == unsubscribes.paging,
{
}

/// Behind a page without a link to a next one, and behind a page without items, nothing is
/// collected any more: the list is what it is without the pages from there on.
pub proof fn nothing_is_collected_behind_the_end<T>(
    list: Page<T>,
    pages: Seq<Page<T>>,
    end: Page<T>,
    rest: Seq<Page<T>>,
)
    requires
        list.paging is Some && list.paging->0.next is Some,
        forall|i: int|
            0 <= i < pages.len() ==> {
                &&& (#[trigger] pages[i]).items.len() > 0
                &&& pages[i].paging is Some
                &&& pages[i].paging->0.next is Some
            },
    ensures
        end.items.len() == 0 ==> collected(list, pages + seq![end] + rest) == collected(list, pages),
        end.items.len() > 0 && (end.paging is None || end.paging->0.next is None) ==> collected(
            list,
            pages + seq![end] + rest,
        ) == collected(list, pages + seq![end]),
    decreases pages.len(),
{
    let all = pages + seq![end] + rest;
    if pages.len() == 0 {
        assert(all.drop_first() =~= rest);
        assert((pages + seq![end]).drop_first() =~= seq![]);
        assert(all[0] == end);
        assert((pages + seq![end])[0] == end);
        assert(collected_from(list.with_page(end), None, rest) == list.with_page(end));
        assert(collected_from(list.with_page(end), end.onward(), seq![]) == list.with_page(end));
    } else {
        let more = pages.drop_first();
        let next = list.followed_by(pages[0]);
        assert(pages[0].items.len() > 0 && pages[0].paging->0.next is Some);
        assert forall|i: int| 0 <= i < more.len() implies {
            &&& (#[trigger] more[i]).items.len() > 0
            &&& more[i].paging is Some
            &&& more[i].paging->0.next is Some
        } by {
            assert(more[i] == pages[i + 1]);
        }
        nothing_is_collected_behind_the_end(next, more, end, rest);
        assert(all.drop_first() =~= more + seq![end] + rest);
        assert((pages + seq![end]).drop_first() =~= more + seq![end]);
        assert(all[0] == pages[0] && (pages + seq![end])[0] == pages[0]);
    }
}

} // verus!
