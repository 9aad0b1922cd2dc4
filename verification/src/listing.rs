//! Listing the data files under a prefix: which keys are selected, and how
//! the pages of a listing are folded into one list of keys.

use crate::text::{ends_with, has_suffix, names_view, text_view};
use vstd::prelude::*;

verus! {

/// A key names a data file: it ends in `.parquet` or in `.parquet.zst`.
pub open spec fn is_data_file_key(key: Seq<char>) -> bool {
    has_suffix(key, ".parquet"@) || has_suffix(key, ".parquet.zst"@)
}

/// Tells whether `key` names a data file.
pub fn is_data_file(key: &str) -> (yes: bool)
    ensures
        yes == is_data_file_key(key@),
{
    ends_with(key, ".parquet") || ends_with(key, ".parquet.zst")
}

/// The keys of `objects` that are selected, in their order: those that are
/// present and name a data file.
pub open spec fn selected_keys(objects: Seq<Option<Seq<char>>>) -> Seq<Seq<char>>
    decreases objects.len(),
{
    if objects.len() == 0 {
        Seq::empty()
    } else {
        let before = selected_keys(objects.drop_last());
        match objects.last() {
            Some(key) => if is_data_file_key(key) {
                before.push(key)
            } else {
                before
            },
            None => before,
        }
    }
}

/// The views of the keys of listed objects.
pub open spec fn objects_view(objects: Seq<Option<String>>) -> Seq<Option<Seq<char>>> {
    objects.map_values(|key: Option<String>| text_view(key))
}

/// Selection does not see page boundaries: selecting from two runs of objects
/// and joining the results is selecting from the joined run.
pub proof fn lemma_selection_ignores_pages(
    first: Seq<Option<Seq<char>>>,
    second: Seq<Option<Seq<char>>>,
)
    ensures
        selected_keys(first + second) == selected_keys(first) + selected_keys(second),
    decreases second.len(),
{
    if second.len() == 0 {
        assert(first + second =~= first);
        assert(selected_keys(first) + selected_keys(second) =~= selected_keys(first));
    } else {
        assert((first + second).drop_last() =~= first + second.drop_last());
        assert((first + second).last() == second.last());
        lemma_selection_ignores_pages(first, second.drop_last());
        let joined = selected_keys(first) + selected_keys(second.drop_last());
        match second.last() {
            Some(key) => {
                if is_data_file_key(key) {
                    assert(joined.push(key) =~= selected_keys(first) + selected_keys(
                        second.drop_last(),
                    ).push(key));
                }
            },
            None => {},
        }
    }
}

/// The selection holds exactly the listed keys that name a data file: each
/// selected key was listed and ends in a recognised suffix, and each listed
/// key that ends in one is selected.
pub proof fn lemma_selection_exact(objects: Seq<Option<Seq<char>>>, key: Seq<char>)
    ensures
        selected_keys(objects).contains(key) <==> (objects.contains(Some(key)) && is_data_file_key(
            key,
        )),
    decreases objects.len(),
{
    if objects.len() > 0 {
        let rest = objects.drop_last();
        let before = selected_keys(rest);
        lemma_selection_exact(rest, key);
        let chosen = selected_keys(objects);
        if rest.contains(Some(key)) {
            let k = choose|k: int| 0 <= k < rest.len() && rest[k] == Some(key);
            assert(objects[k] == Some(key));
        }
        if objects.contains(Some(key)) && !rest.contains(Some(key)) {
            let k = choose|k: int| 0 <= k < objects.len() && objects[k] == Some(key);
            if k < rest.len() {
                assert(rest[k] == Some(key));
            }
            assert(objects.last() == Some(key));
        }
        if objects.last() == Some(key) {
            assert(objects[objects.len() - 1] == Some(key));
        }
        if before.contains(key) {
            let k = choose|k: int| 0 <= k < before.len() && before[k] == key;
            if chosen.len() > before.len() {
                assert(chosen[k] == key);
            }
        }
        if chosen.contains(key) && !before.contains(key) {
            let k = choose|k: int| 0 <= k < chosen.len() && chosen[k] == key;
            if k < before.len() {
                assert(before[k] == key);
            }
        }
        if chosen.len() > before.len() {
            assert(chosen[chosen.len() - 1] == objects.last().unwrap());
        }
    }
}

/// One page of a listing, as the storage service answered it.
#[derive(Clone, Debug)]
pub struct ListingPage {
    /// The keys of the objects on the page, where the page has any; an object
    /// may come without a key.
    pub contents: Option<Vec<Option<String>>>,
    /// More pages follow.
    pub is_truncated: bool,
    /// The cursor with which to ask for the next page.
    pub next_token: Option<String>,
}

impl ListingPage {
    /// The keys of the objects on the page; none where the page has no
    /// contents.
    pub open spec fn objects(&self) -> Seq<Option<Seq<char>>> {
        match self.contents {
            Some(objects) => objects_view(objects@),
            None => Seq::empty(),
        }
    }
}

/// What the lister asks for next.
#[derive(Clone, Debug)]
pub enum ListingStep {
    /// Request a page, with this continuation cursor (none for the first).
    RequestPage(Option<String>),
    /// The listing is complete.
    Done,
}

/// The state of a listing: the keys selected so far, and where to go on.
#[derive(Debug)]
pub struct Lister {
    keys: Vec<String>,
    cursor: Option<String>,
    finished: bool,
}

/// The mathematical value of a [`Lister`].
pub struct ListerView {
    pub keys: Seq<Seq<char>>,
    pub cursor: Option<Seq<char>>,
    pub finished: bool,
}

impl ListerView {
    /// The state after the service answered with a page of `objects`.
    pub open spec fn after_page(
        self,
        objects: Seq<Option<Seq<char>>>,
        is_truncated: bool,
        next_token: Option<Seq<char>>,
    ) -> ListerView {
        ListerView {
            keys: self.keys + selected_keys(objects),
            cursor: if is_truncated {
                next_token
            } else {
                self.cursor
            },
            finished: !is_truncated,
        }
    }
}

impl View for Lister {
    type V = ListerView;

    closed spec fn view(&self) -> ListerView {
        ListerView {
            keys: names_view(self.keys@),
            cursor: text_view(self.cursor),
            finished: self.finished,
        }
    }
}

/// Appends to `keys` the selected keys of `objects`, in their order.
pub fn select_keys(keys: &mut Vec<String>, objects: &Vec<Option<String>>)
    ensures
        names_view(final(keys)@) == names_view(old(keys)@) + selected_keys(objects_view(objects@)),
{
    let ghost all = objects_view(objects@);
    let mut i: usize = 0;
    assert(all.take(0) =~= Seq::empty());
    assert(names_view(keys@) + selected_keys(all.take(0)) =~= names_view(keys@));
    while i < objects.len()
        invariant
            i <= objects@.len(),
            all == objects_view(objects@),
            names_view(keys@) == names_view(old(keys)@) + selected_keys(all.take(i as int)),
        decreases objects@.len() - i,
    {
        proof {
            assert(all.take(i + 1).drop_last() =~= all.take(i as int));
            assert(all.take(i + 1).last() == text_view(objects@[i as int]));
        }
        let ghost before = names_view(keys@);
        match &objects[i] {
            Some(key) => {
                if is_data_file(key.as_str()) {
                    keys.push(key.clone());
                    assert(names_view(keys@) =~= before.push(key@));
                    assert(before.push(key@) =~= names_view(old(keys)@) + selected_keys(
                        all.take(i as int),
                    ).push(key@));
                }
            },
            None => {},
        }
        i += 1;
    }
    assert(all.take(i as int) =~= all);
}

impl Lister {
    /// A listing that has not asked for anything yet.
    pub fn new() -> (lister: Lister)
        ensures
            lister@ == (ListerView { keys: Seq::empty(), cursor: None, finished: false }),
    {
        let lister = Lister { keys: Vec::new(), cursor: None, finished: false };
        assert(lister@.keys =~= Seq::empty());
        lister
    }

    /// What to do next: request the page at the cursor, or stop.
    pub fn next_step(&self) -> (step: ListingStep)
        ensures
            match step {
                ListingStep::RequestPage(cursor) => !self@.finished && text_view(cursor)
                    == self@.cursor,
                ListingStep::Done => self@.finished,
            },
    {
        if self.finished {
            ListingStep::Done
        } else {
            ListingStep::RequestPage(self.cursor.clone())
        }
    }

    /// Takes in one page: its selected keys follow those of the pages before,
    /// and the listing goes on exactly if the page says that more follow.
    pub fn on_page(&mut self, page: &ListingPage)
        ensures
            final(self)@ == old(self)@.after_page(
                page.objects(),
                page.is_truncated,
                text_view(page.next_token),
            ),
    {
        match &page.contents {
            Some(objects) => {
                select_keys(&mut self.keys, objects);
            },
            None => {
                assert(names_view(self.keys@) + selected_keys(Seq::empty()) =~= names_view(
                    self.keys@,
                ));
            },
        }
        if page.is_truncated {
            self.cursor = page.next_token.clone();
            self.finished = false;
        } else {
            self.finished = true;
        }
    }

    /// The keys selected so far, in listing order.
    pub fn keys(&self) -> (keys: &Vec<String>)
        ensures
            names_view(keys@) == self@.keys,
    {
        &self.keys
    }

    /// Ends the listing and hands out the selected keys, in listing order.
    pub fn into_keys(self) -> (keys: Vec<String>)
        ensures
            names_view(keys@) == self@.keys,
    {
        self.keys
    }
}

/// The objects of a run of pages, joined in page order.
pub open spec fn all_objects(pages: Seq<Seq<Option<Seq<char>>>>) -> Seq<Option<Seq<char>>>
    decreases pages.len(),
{
    if pages.len() == 0 {
        Seq::empty()
    } else {
        all_objects(pages.drop_last()) + pages.last()
    }
}

/// The keys selected from a run of pages, page by page.
pub open spec fn keys_by_page(pages: Seq<Seq<Option<Seq<char>>>>) -> Seq<Seq<char>>
    decreases pages.len(),
{
    if pages.len() == 0 {
        Seq::empty()
    } else {
        keys_by_page(pages.drop_last()) + selected_keys(pages.last())
    }
}

/// Pagination is transparent: selecting page by page gives the keys that one
/// selection over all objects gives, however the objects are cut into pages.
pub proof fn lemma_pagination_transparent(pages: Seq<Seq<Option<Seq<char>>>>)
    ensures
        keys_by_page(pages) == selected_keys(all_objects(pages)),
    decreases pages.len(),
{
    if pages.len() > 0 {
        lemma_pagination_transparent(pages.drop_last());
        lemma_selection_ignores_pages(all_objects(pages.drop_last()), pages.last());
    }
}

} // verus!
