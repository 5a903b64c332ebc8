pub mod cache;
pub mod request;

use crate::conn::ConnectionError;
use crate::library::cache::{
    after_album, after_artist, after_root, children_of, keys_view, known_children, lemma_ingest_keeps_unlisted,
    listing_fits, lists_hit_keys, lists_hits, page_lists, pairs_view, song_keys, CacheView, LibraryCache,
};
use crate::library::request::{FindType, LibraryRequest};
use crate::subsonic::{self, SubsonicData, SubsonicResponse};
use crate::ui::event::UiEvent;
use vstd::prelude::*;

verus! {

/// Server-assigned identifier of an artist, album or song; unique within its kind.
pub type Id = String;

/// Abstract form of a [`LibraryItemKey`]: the kind and the characters of the id.
pub enum NodeView {
    Root,
    Artist(Seq<char>),
    Album(Seq<char>),
    Song(Seq<char>),
}

/// Position of a node in the catalog tree.
#[derive(Debug, Clone, PartialEq, Eq, Hash)]
pub enum LibraryItemKey {
    Root,
    Artist(Id),
    Album(Id),
    Song(Id),
}

impl View for LibraryItemKey {
    type V = NodeView;

    open spec fn view(&self) -> NodeView {
        match self {
            LibraryItemKey::Root => NodeView::Root,
            LibraryItemKey::Artist(id) => NodeView::Artist(id@),
            LibraryItemKey::Album(id) => NodeView::Album(id@),
            LibraryItemKey::Song(id) => NodeView::Song(id@),
        }
    }
}

impl LibraryItemKey {
    /// An owned copy of this key.
    pub fn copied(&self) -> (r: LibraryItemKey)
        ensures
            r == *self,
    {
        match self {
            LibraryItemKey::Root => LibraryItemKey::Root,
            LibraryItemKey::Artist(id) => LibraryItemKey::Artist(id.clone()),
            LibraryItemKey::Album(id) => LibraryItemKey::Album(id.clone()),
            LibraryItemKey::Song(id) => LibraryItemKey::Song(id.clone()),
        }
    }

    /// Whether two keys name the same node: same kind and same id.
    pub fn same(&self, other: &LibraryItemKey) -> (r: bool)
        ensures
            r == (self@ == other@),
    {
        match (self, other) {
            (LibraryItemKey::Root, LibraryItemKey::Root) => true,
            (LibraryItemKey::Artist(a), LibraryItemKey::Artist(b)) => *a == *b,
            (LibraryItemKey::Album(a), LibraryItemKey::Album(b)) => *a == *b,
            (LibraryItemKey::Song(a), LibraryItemKey::Song(b)) => *a == *b,
            _ => false,
        }
    }
}

/// The lower-case form of a text, as `str::to_lowercase` computes it.
pub uninterp spec fn lower_of(s: Seq<char>) -> Seq<char>;

/// Relies on `str::to_lowercase`: the lower-case form of the text, which
/// depends on its characters alone; the characters are collected in order.
#[verifier::external_body]
fn fold_case(s: &str) -> (r: Vec<char>)
    ensures
        r@ == lower_of(s@),
{
    s.to_lowercase().chars().collect()
}

/// Whether `needle` occurs in `hay` starting at position `i`.
pub open spec fn occurs_at(needle: Seq<char>, hay: Seq<char>, i: int) -> bool {
    &&& 0 <= i
    &&& i + needle.len() <= hay.len()
    &&& hay.subrange(i, i + needle.len()) == needle
}

/// Whether `needle` is a contiguous part of `hay`.
pub open spec fn is_infix(needle: Seq<char>, hay: Seq<char>) -> bool {
    exists|i: int| occurs_at(needle, hay, i)
}

/// A text kept together with its lower-case form, for case-insensitive search.
/// Its view is the text as given; the lower-case form is always `lower_of` of it.
#[derive(Debug)]
pub struct SearchString {
    display: String,
    search: Vec<char>,
}

impl View for SearchString {
    type V = Seq<char>;

    closed spec fn view(&self) -> Seq<char> {
        self.display@
    }
}

impl SearchString {
    #[verifier::type_invariant]
    closed spec fn folded_together(&self) -> bool {
        self.search@ == lower_of(self.display@)
    }

    /// The search string of a text.
    pub fn from(value: &str) -> (r: SearchString)
        ensures
            r@ == value@,
    {
        let display = value.to_owned();
        let search = fold_case(value);
        SearchString { display, search }
    }

    /// The text as given.
    pub fn as_str(&self) -> (r: &str)
        ensures
            r@ == self@,
    {
        self.display.as_str()
    }

    /// An owned copy.
    pub fn copied(&self) -> (r: SearchString)
        ensures
            r@ == self@,
    {
        proof {
            use_type_invariant(self);
        }
        let search = self.search.clone();
        assert(search@ =~= self.search@);
        SearchString { display: self.display.clone(), search }
    }

    /// Whether `other` occurs in this text, ignoring case: the lower-case
    /// form of `other` is a contiguous part of the lower-case form of this one.
    pub fn contains(&self, other: &SearchString) -> (r: bool)
        ensures
            r == is_infix(lower_of(other@), lower_of(self@)),
    {
        proof {
            use_type_invariant(self);
            use_type_invariant(other);
        }
        let hay = &self.search;
        let needle = &other.search;
        if needle.len() > hay.len() {
            assert forall|i: int| !occurs_at(needle@, hay@, i) by {}
            return false;
        }
        let last: usize = hay.len() - needle.len();
        let mut i: usize = 0;
        while i <= last
            invariant
                hay@ == lower_of(self@),
                needle@ == lower_of(other@),
                last == hay.len() - needle.len(),
                needle.len() <= hay.len(),
                i <= last + 1,
                forall|j: int| 0 <= j < i ==> !occurs_at(needle@, hay@, j),
            decreases last + 1 - i,
        {
            let mut k: usize = 0;
            let mut same = true;
            while k < needle.len()
                invariant_except_break
                    same,
                invariant
                    i <= last,
                    last == hay.len() - needle.len(),
                    k <= needle.len(),
                    forall|m: int| 0 <= m < k ==> hay@[i + m] == needle@[m],
                ensures
                    k <= needle.len(),
                    forall|m: int| 0 <= m < k ==> hay@[i + m] == needle@[m],
                    same ==> k == needle.len(),
                    !same ==> k < needle.len() && hay@[i + k] != needle@[k as int],
                decreases needle.len() - k,
            {
                if hay[i + k] != needle[k] {
                    same = false;
                    break;
                }
                k = k + 1;
            }
            if same {
                assert(hay@.subrange(i as int, i + needle.len()) =~= needle@);
                assert(occurs_at(needle@, hay@, i as int));
                return true;
            }
            assert(!occurs_at(needle@, hay@, i as int)) by {
                assert(hay@.subrange(i as int, i + needle.len())[k as int] != needle@[k as int]);
            }
            i = i + 1;
        }
        false
    }
}

/// Abstract form of a [`LibraryItem`]: the texts as given and the song details.
pub enum ItemView {
    Artist(Seq<char>),
    Album(Seq<char>),
    Song(Seq<char>, Option<usize>, Option<usize>),
}

impl ItemView {
    /// The text that is shown and searched: a name or a song title.
    pub open spec fn text(self) -> Seq<char> {
        match self {
            ItemView::Artist(name) => name,
            ItemView::Album(name) => name,
            ItemView::Song(title, _, _) => title,
        }
    }
}

#[derive(Debug)]
pub struct Artist {
    pub name: SearchString,
}

#[derive(Debug)]
pub struct Album {
    pub name: SearchString,
}

#[derive(Debug)]
pub struct Song {
    pub title: SearchString,
    pub track_number: Option<usize>,
    pub duration: Option<usize>,
}

/// What the cache holds of an artist, album or song.
#[derive(Debug)]
pub enum LibraryItem {
    Artist(Artist),
    Album(Album),
    Song(Song),
}

impl View for LibraryItem {
    type V = ItemView;

    open spec fn view(&self) -> ItemView {
        match self {
            LibraryItem::Artist(a) => ItemView::Artist(a.name@),
            LibraryItem::Album(a) => ItemView::Album(a.name@),
            LibraryItem::Song(s) => ItemView::Song(s.title@, s.track_number, s.duration),
        }
    }
}

impl LibraryItem {
    /// An owned copy.
    pub fn copied(&self) -> (r: LibraryItem)
        ensures
            r@ == self@,
    {
        match self {
            LibraryItem::Artist(a) => LibraryItem::Artist(Artist { name: a.name.copied() }),
            LibraryItem::Album(a) => LibraryItem::Album(Album { name: a.name.copied() }),
            LibraryItem::Song(s) => LibraryItem::Song(
                Song {
                    title: s.title.copied(),
                    track_number: s.track_number,
                    duration: s.duration,
                },
            ),
        }
    }

    /// The text that is shown and searched.
    pub fn text(&self) -> (r: &SearchString)
        ensures
            r@ == self@.text(),
    {
        match self {
            LibraryItem::Artist(a) => &a.name,
            LibraryItem::Album(a) => &a.name,
            LibraryItem::Song(s) => &s.title,
        }
    }
}

/// Why resolving a node's children failed.
#[derive(Debug)]
pub enum LibraryError {
    /// The server answered with an error.
    Connection(ConnectionError),
    /// The request did not reach the server, or its answer could not be read.
    Transport(String),
    /// The node's listing was fetched and ingested, and its children are still unknown.
    EmptyChildren,
}

/// The decimal digit character of `d`, for `d < 10`.
pub open spec fn dec_digit(d: nat) -> char {
    if d == 0 { '0' } else if d == 1 { '1' } else if d == 2 { '2' } else if d == 3 { '3' }
    else if d == 4 { '4' } else if d == 5 { '5' } else if d == 6 { '6' } else if d == 7 { '7' }
    else if d == 8 { '8' } else { '9' }
}

/// `n` in decimal, without leading zeros.
pub open spec fn dec_digits(n: nat) -> Seq<char>
    decreases n,
{
    if n < 10 {
        seq![dec_digit(n)]
    } else {
        dec_digits(n / 10).push(dec_digit(n % 10))
    }
}

/// `n` in decimal with at least two digits.
pub open spec fn two_digits(n: nat) -> Seq<char> {
    if n < 10 {
        seq!['0', dec_digit(n)]
    } else {
        dec_digits(n)
    }
}

fn dec_char(d: usize) -> (c: char)
    requires
        d < 10,
    ensures
        c == dec_digit(d as nat),
{
    match d {
        0 => '0',
        1 => '1',
        2 => '2',
        3 => '3',
        4 => '4',
        5 => '5',
        6 => '6',
        7 => '7',
        8 => '8',
        _ => '9',
    }
}

/// Appends the decimal digits of `n` to `out`.
pub(crate) fn push_dec(n: usize, out: &mut Vec<char>)
    ensures
        final(out)@ == old(out)@ + dec_digits(n as nat),
    decreases n,
{
    let ghost start = out@;
    if n >= 10 {
        push_dec(n / 10, out);
    }
    out.push(dec_char(n % 10));
    proof {
        if n >= 10 {
            assert((n / 10) as nat == n as nat / 10);
        }
        assert(out@ =~= start + dec_digits(n as nat));
    }
}

/// Relies on `String`'s `FromIterator<&char>`: the characters, in order.
#[verifier::external_body]
pub(crate) fn string_of_chars(v: &Vec<char>) -> (r: String)
    ensures
        r@ == v@,
{
    v.iter().collect()
}

/// A number that may be missing, read as 0 when it is.
pub open spec fn or_zero(n: Option<usize>) -> nat {
    match n {
        Some(v) => v as nat,
        None => 0,
    }
}

impl Song {
    /// The line that shows the song: track number, title, and the duration
    /// as minutes and two-digit seconds; a missing number counts as 0.
    pub fn display_line(&self) -> (r: String)
        ensures
            r@ == dec_digits(or_zero(self.track_number)) + ": "@ + self.title@ + " ["@ + dec_digits(
                or_zero(self.duration) / 60,
            ) + ":"@ + two_digits(or_zero(self.duration) % 60) + "]"@,
    {
        let track: usize = match self.track_number {
            Some(t) => t,
            None => 0,
        };
        let duration: usize = match self.duration {
            Some(d) => d,
            None => 0,
        };
        let mut digits: Vec<char> = Vec::new();
        push_dec(track, &mut digits);
        assert(digits@ =~= dec_digits(track as nat));
        let mut line = string_of_chars(&digits);
        line.append(": ");
        line.append(self.title.as_str());
        line.append(" [");
        let mut minutes: Vec<char> = Vec::new();
        push_dec(duration / 60, &mut minutes);
        assert(minutes@ =~= dec_digits((duration / 60) as nat));
        line.append(string_of_chars(&minutes).as_str());
        line.append(":");
        let seconds: usize = duration % 60;
        let mut sec_digits: Vec<char> = Vec::new();
        if seconds < 10 {
            sec_digits.push('0');
        }
        push_dec(seconds, &mut sec_digits);
        assert(sec_digits@ =~= two_digits(seconds as nat));
        line.append(string_of_chars(&sec_digits).as_str());
        line.append("]");
        line
    }
}

impl LibraryError {
    /// The failure as a line of text.
    pub fn message(&self) -> (r: String)
        ensures
            r@ == match self {
                LibraryError::Connection(e) => crate::conn::error_text(*e),
                LibraryError::Transport(m) => m@,
                LibraryError::EmptyChildren => "empty children"@,
            },
    {
        match self {
            LibraryError::Connection(e) => e.message(),
            LibraryError::Transport(m) => m.clone(),
            LibraryError::EmptyChildren => "empty children".to_owned(),
        }
    }
}

/// What to ask the server for.
#[derive(Debug, Clone, PartialEq, Eq)]
pub enum Fetch {
    /// The artist listing under the root.
    Artists,
    /// The albums of an artist.
    Artist(Id),
    /// The songs of an album.
    Album(Id),
}

/// `f` is the fetch that lists the children of `k`.
pub open spec fn fetch_for(k: NodeView, f: Fetch) -> bool {
    match f {
        Fetch::Artists => k is Root,
        Fetch::Artist(id) => k == NodeView::Artist(id@),
        Fetch::Album(id) => k == NodeView::Album(id@),
    }
}

/// The children of `k` as resolving gives them without a fetch: those the
/// cache holds, and none for a song.
pub open spec fn resolved(c: CacheView, k: NodeView) -> Option<Seq<(NodeView, ItemView)>> {
    if k is Song {
        Some(Seq::empty())
    } else {
        children_of(c, k)
    }
}

/// The cache after ingesting `resp` as the listing of `k`; a response that
/// holds no listing of `k`'s kind changes nothing.
pub open spec fn after_fetch(c: CacheView, k: NodeView, resp: SubsonicResponse) -> CacheView {
    match (k, resp.data) {
        (NodeView::Root, Some(SubsonicData::Artists(a))) => after_root(c, a),
        (NodeView::Artist(id), Some(SubsonicData::Artist(a))) => after_artist(c, id, a),
        (NodeView::Album(id), Some(SubsonicData::Album(a))) => after_album(c, id, a),
        _ => c,
    }
}

/// `r` is what completing the fetch for `k` gives, the cache going from
/// `before` to `after`: a failed fetch is handed back and changes nothing;
/// a response is ingested, and then the children are looked up once more.
pub open spec fn completes(
    before: CacheView,
    after: CacheView,
    k: NodeView,
    fetched: Result<SubsonicResponse, LibraryError>,
    r: Result<Vec<(LibraryItemKey, LibraryItem)>, LibraryError>,
) -> bool {
    match fetched {
        Err(e) => after == before && r == Err::<Vec<(LibraryItemKey, LibraryItem)>, LibraryError>(e),
        Ok(resp) => after == after_fetch(before, k, resp) && match r {
            Ok(v) => resolved(after, k) == Some(pairs_view(v@)),
            Err(e) => e is EmptyChildren && resolved(after, k) is None,
        },
    }
}

/// The first half of resolving a node's children.
#[derive(Debug)]
pub enum Resolution {
    /// The children are known: no fetch is needed.
    Ready(Vec<(LibraryItemKey, LibraryItem)>),
    /// The children are unknown: this fetch lists them.
    NeedsFetch(Fetch),
}

/// What the service does for a request.
#[derive(Debug)]
pub enum Step {
    /// Send this event.
    Reply(UiEvent),
    /// Make this fetch for this node, then hand the outcome to `Library::fetched`.
    Fetch(LibraryItemKey, Fetch),
    /// Stop reading requests.
    Stop,
}

/// The catalog service: it owns the cache, answers requests from it, and
/// says which fetch fills it when it cannot answer yet.
pub struct Library {
    cache: LibraryCache,
}

impl View for Library {
    type V = CacheView;

    closed spec fn view(&self) -> CacheView {
        self.cache@
    }
}

impl Library {
    pub closed spec fn wf(&self) -> bool {
        self.cache.wf()
    }

    /// Each entry fits its node; the root and each index list artists, each
    /// once; every node that a list names has an entry.
    pub proof fn lemma_well_formed(&self)
        requires
            self.wf(),
        ensures
            self@.well_formed(),
    {
        self.cache.lemma_well_formed();
    }

    /// A service with an empty cache.
    pub fn new() -> (r: Library)
        ensures
            r.wf(),
            r@.entries == Map::<NodeView, cache::EntryView>::empty(),
            r@.indexes == Map::<Seq<char>, Seq<NodeView>>::empty(),
            r@.root is None,
    {
        Library { cache: LibraryCache::new() }
    }

    /// The children of `key` if they are known without a fetch (a song has
    /// none), else the one fetch that lists them.
    pub fn resolve(&self, key: &LibraryItemKey) -> (r: Resolution)
        requires
            self.wf(),
        ensures
            match r {
                Resolution::Ready(v) => resolved(self@, key@) == Some(pairs_view(v@)) && listing_fits(
                    key@,
                    pairs_view(v@),
                ),
                Resolution::NeedsFetch(f) => resolved(self@, key@) is None && fetch_for(key@, f),
            },
    {
        let fetch = match key {
            LibraryItemKey::Root => Fetch::Artists,
            LibraryItemKey::Artist(id) => Fetch::Artist(id.clone()),
            LibraryItemKey::Album(id) => Fetch::Album(id.clone()),
            LibraryItemKey::Song(_) => {
                let v: Vec<(LibraryItemKey, LibraryItem)> = Vec::new();
                assert(pairs_view(v@) =~= Seq::empty());
                return Resolution::Ready(v);
            },
        };
        match self.cache.get_children(key) {
            Some(v) => Resolution::Ready(v),
            None => Resolution::NeedsFetch(fetch),
        }
    }

    /// The second half of resolving: ingests the fetched listing of `key`
    /// and looks its children up once more. A failed fetch is handed back
    /// unchanged; children still unknown after ingesting give `EmptyChildren`.
    pub fn complete(
        &mut self,
        key: &LibraryItemKey,
        fetched: Result<SubsonicResponse, LibraryError>,
    ) -> (r: Result<Vec<(LibraryItemKey, LibraryItem)>, LibraryError>)
        requires
            old(self).wf(),
        ensures
            final(self).wf(),
            completes(old(self)@, final(self)@, key@, fetched, r),
    {
        match fetched {
            Err(e) => Err(e),
            Ok(resp) => {
                match key {
                    LibraryItemKey::Root => self.cache.update_root(resp),
                    LibraryItemKey::Artist(id) => self.cache.update_artist(resp, id),
                    LibraryItemKey::Album(id) => self.cache.update_album(resp, id),
                    LibraryItemKey::Song(_) => {
                        let v: Vec<(LibraryItemKey, LibraryItem)> = Vec::new();
                        assert(pairs_view(v@) =~= Seq::empty());
                        return Ok(v);
                    },
                }
                match self.cache.get_children(key) {
                    Some(v) => Ok(v),
                    None => Err(LibraryError::EmptyChildren),
                }
            },
        }
    }

    /// What the service does for `req`: answer it from the cache, name the
    /// fetch that a children request needs first, or stop on `Shutdown`.
    pub fn handle(&self, req: LibraryRequest) -> (r: Step)
        requires
            self.wf(),
        ensures
            match req {
                LibraryRequest::GetChildren(k) => match r {
                    Step::Reply(UiEvent::LibraryGetChildrenComplete(k2, Ok(v))) => k2 == k && resolved(self@, k@)
                        == Some(pairs_view(v@)),
                    Step::Fetch(k2, f) => k2 == k && resolved(self@, k@) is None && fetch_for(k@, f),
                    _ => false,
                },
                LibraryRequest::FindEntries(id, kind, q) => match r {
                    Step::Reply(UiEvent::LibraryFindEntriesComplete(id2, v)) => id2 == id && lists_hits(
                        self@,
                        kind,
                        q@,
                        v@,
                    ),
                    _ => false,
                },
                LibraryRequest::Shutdown => r is Stop,
            },
    {
        match req {
            LibraryRequest::GetChildren(key) => match self.resolve(&key) {
                Resolution::Ready(v) => Step::Reply(UiEvent::LibraryGetChildrenComplete(key, Ok(v))),
                Resolution::NeedsFetch(f) => Step::Fetch(key, f),
            },
            LibraryRequest::FindEntries(id, kind, query) => {
                let found = self.find_entries(kind, query.as_str());
                Step::Reply(UiEvent::LibraryFindEntriesComplete(id, found))
            },
            LibraryRequest::Shutdown => Step::Stop,
        }
    }

    /// The event that answers a children request for `key` once its fetch
    /// came back with `fetched`.
    pub fn fetched(&mut self, key: LibraryItemKey, fetched: Result<SubsonicResponse, LibraryError>) -> (r: UiEvent)
        requires
            old(self).wf(),
        ensures
            final(self).wf(),
            match r {
                UiEvent::LibraryGetChildrenComplete(k2, res) => k2 == key && completes(
                    old(self)@,
                    final(self)@,
                    key@,
                    fetched,
                    res,
                ),
                _ => false,
            },
    {
        let res = self.complete(&key, fetched);
        UiEvent::LibraryGetChildrenComplete(key, res)
    }

    /// Every cached node of a kind that `kind` admits whose text holds
    /// `query`, ignoring case; each once, with its item. Nothing is fetched.
    pub fn find_entries(&self, kind: FindType, query: &str) -> (r: Vec<(LibraryItemKey, LibraryItem)>)
        requires
            self.wf(),
        ensures
            lists_hits(self@, kind, query@, r@),
    {
        let needle = SearchString::from(query);
        self.cache.find_entries(kind, &needle)
    }

    /// The nodes of a search's hits, each once; see `find_entries`.
    pub fn find_keys(&self, kind: FindType, contains: &str) -> (r: Vec<LibraryItemKey>)
        requires
            self.wf(),
        ensures
            lists_hit_keys(self@, kind, contains@, keys_view(r@)),
    {
        let found = self.find_entries(kind, contains);
        let mut r: Vec<LibraryItemKey> = Vec::new();
        let mut i: usize = 0;
        while i < found.len()
            invariant
                i <= found.len(),
                r@.len() == i,
                forall|j: int| 0 <= j < i ==> (#[trigger] r@[j])@ == found@[j].0@,
            decreases found.len() - i,
        {
            r.push(found[i].0.copied());
            i = i + 1;
        }
        proof {
            let ks = keys_view(r@);
            assert forall|j: int| 0 <= j < ks.len() implies #[trigger] ks[j] == found@[j].0@ by {
                assert(r@[j]@ == found@[j].0@);
            }
            assert forall|k: NodeView| #[trigger] cache::is_hit(self@, kind, contains@, k) implies exists|j: int|
                0 <= j < ks.len() && ks[j] == k by {
                let j = choose|j: int| 0 <= j < found@.len() && found@[j].0@ == k;
                assert(ks[j] == k);
            }
        }
        r
    }

    /// The cached artists whose name holds `contains`, ignoring case.
    pub fn find_artist(&self, contains: &str) -> (r: Vec<LibraryItemKey>)
        requires
            self.wf(),
        ensures
            lists_hit_keys(self@, FindType::Artist, contains@, keys_view(r@)),
    {
        self.find_keys(FindType::Artist, contains)
    }

    /// The cached albums whose name holds `contains`, ignoring case.
    pub fn find_album(&self, contains: &str) -> (r: Vec<LibraryItemKey>)
        requires
            self.wf(),
        ensures
            lists_hit_keys(self@, FindType::Album, contains@, keys_view(r@)),
    {
        self.find_keys(FindType::Album, contains)
    }

    /// The cached songs whose title holds `contains`, ignoring case.
    pub fn find_song(&self, contains: &str) -> (r: Vec<LibraryItemKey>)
        requires
            self.wf(),
        ensures
            lists_hit_keys(self@, FindType::Song, contains@, keys_view(r@)),
    {
        self.find_keys(FindType::Song, contains)
    }

    /// The cached nodes of any kind whose text holds `contains`, ignoring case.
    pub fn find_entry(&self, contains: &str) -> (r: Vec<LibraryItemKey>)
        requires
            self.wf(),
        ensures
            lists_hit_keys(self@, FindType::Any, contains@, keys_view(r@)),
    {
        self.find_keys(FindType::Any, contains)
    }

    /// A lookup in the cache alone, without resolving: the children of `key`
    /// once its own listing was ingested, else `None` (always for a song,
    /// where `resolve` answers an empty list). See `LibraryCache::get_children`.
    pub fn cached_children(&self, key: &LibraryItemKey) -> (r: Option<Vec<(LibraryItemKey, LibraryItem)>>)
        requires
            self.wf(),
        ensures
            match r {
                Some(v) => children_of(self@, key@) == Some(pairs_view(v@)) && listing_fits(key@, pairs_view(v@)),
                None => children_of(self@, key@) is None,
            },
    {
        self.cache.get_children(key)
    }

    /// The cached item of `key`, if any.
    pub fn get_item(&self, key: &LibraryItemKey) -> (r: Option<LibraryItem>)
        requires
            self.wf(),
        ensures
            match r {
                Some(it) => self@.entries.contains_key(key@) && it@ == self@.entries[key@].item,
                None => !self@.entries.contains_key(key@),
            },
    {
        self.cache.get_item(key)
    }
}

/// At most one fetch per node: once resolving a node needs no fetch, it
/// needs none after a later listing is ingested, unless that listing is the
/// page that lists the node itself (which writes its entry afresh, children
/// not fetched).
pub proof fn lemma_fetch_at_most_once(c: CacheView, k: NodeView, fetched_for: NodeView, resp: SubsonicResponse)
    requires
        resolved(c, k) is Some,
        !page_lists(fetched_for, resp, k),
    ensures
        resolved(after_fetch(c, fetched_for, resp), k) is Some,
{
    if !(k is Song) && !(k is Root) {
        assert(known_children(c.entries, k) is Some);
        lemma_ingest_keeps_unlisted(c, k, fetched_for, resp);
        let after = after_fetch(c, fetched_for, resp);
        assert(known_children(after.entries, k) is Some);
    }
}

/// A completed resolution is cached: with nothing ingested since, resolving
/// the same node again gives the same list, without a fetch.
pub proof fn lemma_completed_is_cached(
    before: CacheView,
    after: CacheView,
    k: NodeView,
    fetched: Result<SubsonicResponse, LibraryError>,
    v: Vec<(LibraryItemKey, LibraryItem)>,
)
    requires
        completes(before, after, k, fetched, Ok(v)),
    ensures
        resolved(after, k) == Some(pairs_view(v@)),
{
}

/// Once an album's listing is ingested, the album resolves to exactly the
/// songs of that listing, in server order.
pub proof fn lemma_album_lists_its_songs(c: CacheView, a: subsonic::Album, resp: SubsonicResponse)
    requires
        resp.data == Some(SubsonicData::Album(a)),
    ensures
        ({
            let k = NodeView::Album(a.id@);
            &&& resolved(after_fetch(c, k, resp), k) matches Some(l)
            &&& l.len() == a.song@.len()
            &&& forall|i: int| 0 <= i < l.len() ==> (#[trigger] l[i]).0 == NodeView::Song(a.song@[i].id@)
        }),
{
    let k = NodeView::Album(a.id@);
    let after = after_fetch(c, k, resp);
    assert(after.entries.contains_key(k));
    assert(after.entries[k].children == Some(song_keys(a.song@)));
}

/// An artist whose listing came back with no albums resolves to an empty
/// list; an artist that is unknown, or whose listing was never ingested,
/// resolves to nothing.
pub proof fn lemma_empty_listing_differs_from_unfetched(c: CacheView, a: subsonic::Artist, resp: SubsonicResponse, other: NodeView)
    requires
        resp.data == Some(SubsonicData::Artist(a)),
        a.album@.len() == 0,
    ensures
        resolved(after_fetch(c, NodeView::Artist(a.id@), resp), NodeView::Artist(a.id@)) == Some(
            Seq::<(NodeView, ItemView)>::empty(),
        ),
        other is Artist && known_children(c.entries, other) is None ==> resolved(c, other) is None,
{
    let k = NodeView::Artist(a.id@);
    let after = after_fetch(c, k, resp);
    assert(after.entries.contains_key(k));
    assert(cache::listing(after.entries, after.entries[k].children.unwrap()) =~= Seq::empty());
}

} // verus!
